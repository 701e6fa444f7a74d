use clipboard_history_manager::entry::ClipboardEntry;
use clipboard_history_manager::history::{ClipboardHistory, MAX_HISTORY_ITEMS};
use clipboard_history_manager::ranking::{rank_matches, ScoredMatch};

fn text(s: &str) -> ClipboardEntry {
    ClipboardEntry::Text(s.to_string())
}

fn texts(h: &ClipboardHistory) -> Vec<String> {
    h.all().into_iter().map(|(_, e)| e.searchable_text().to_string()).collect()
}

#[test]
fn new_history_is_empty() {
    let h = ClipboardHistory::new();
    assert_eq!(h.len(), 0);
    assert!(h.is_empty());
    assert!(h.get(0).is_none());
}

#[test]
fn push_puts_newest_first() {
    let mut h = ClipboardHistory::new();
    h.push(text("a"));
    h.push(text("b"));
    h.push(text("c"));
    assert_eq!(texts(&h), vec!["c", "b", "a"]);
    assert!(h.get(0) == Some(&text("c")));
    assert!(!h.is_empty());
}

#[test]
fn push_duplicate_moves_to_top() {
    let mut h = ClipboardHistory::new();
    h.push(text("a"));
    h.push(text("b"));
    h.push(text("c"));
    h.push(text("a"));
    assert_eq!(texts(&h), vec!["a", "c", "b"]);
    assert_eq!(h.len(), 3);
}

#[test]
fn push_same_entry_twice_is_once() {
    let mut h = ClipboardHistory::new();
    h.push(text("x"));
    h.push(text("y"));
    h.push(text("y"));
    assert_eq!(texts(&h), vec!["y", "x"]);
}

#[test]
fn history_is_bounded() {
    let mut h = ClipboardHistory::new();
    for i in 0..(MAX_HISTORY_ITEMS + 5) {
        h.push(text(&format!("item {i}")));
    }
    assert_eq!(h.len(), MAX_HISTORY_ITEMS);
    assert_eq!(h.get(0).unwrap().searchable_text(), "item 54");
    assert_eq!(h.get(MAX_HISTORY_ITEMS - 1).unwrap().searchable_text(), "item 5");
    assert!(h.get(MAX_HISTORY_ITEMS).is_none());
}

#[test]
fn full_history_duplicate_does_not_drop_oldest() {
    let mut h = ClipboardHistory::new();
    for i in 0..MAX_HISTORY_ITEMS {
        h.push(text(&format!("item {i}")));
    }
    h.push(text("item 0"));
    assert_eq!(h.len(), MAX_HISTORY_ITEMS);
    assert_eq!(h.get(0).unwrap().searchable_text(), "item 0");
    assert_eq!(h.get(MAX_HISTORY_ITEMS - 1).unwrap().searchable_text(), "item 1");
}

#[test]
fn clear_empties_history() {
    let mut h = ClipboardHistory::new();
    h.push(text("a"));
    h.push(text("b"));
    h.clear();
    assert_eq!(h.len(), 0);
    assert!(h.is_empty());
}

#[test]
fn all_lists_index_and_entry() {
    let mut h = ClipboardHistory::new();
    h.push(text("a"));
    h.push(text("b"));
    let all = h.all();
    assert_eq!(all.len(), 2);
    assert_eq!(all[0].0, 0);
    assert!(all[0].1 == &text("b"));
    assert_eq!(all[1].0, 1);
    assert!(all[1].1 == &text("a"));
}

#[test]
fn promote_moves_entry_to_front() {
    let mut h = ClipboardHistory::new();
    for s in ["a", "b", "c", "d"] {
        h.push(text(s));
    }
    h.promote(2);
    assert_eq!(texts(&h), vec!["b", "d", "c", "a"]);
}

#[test]
fn promote_first_or_out_of_range_does_nothing() {
    let mut h = ClipboardHistory::new();
    for s in ["a", "b", "c"] {
        h.push(text(s));
    }
    h.promote(0);
    assert_eq!(texts(&h), vec!["c", "b", "a"]);
    h.promote(3);
    assert_eq!(texts(&h), vec!["c", "b", "a"]);
}

#[test]
fn remove_deletes_entry() {
    let mut h = ClipboardHistory::new();
    for s in ["a", "b", "c"] {
        h.push(text(s));
    }
    let r = h.remove(1);
    assert!(r == Some(text("b")));
    assert_eq!(texts(&h), vec!["c", "a"]);
    assert!(h.remove(5).is_none());
    assert_eq!(h.len(), 2);
}

#[test]
fn search_empty_query_lists_everything() {
    let mut h = ClipboardHistory::new();
    for s in ["a", "b", "c"] {
        h.push(text(s));
    }
    let r = h.search("");
    assert_eq!(r.len(), 3);
    for (i, (idx, e, m)) in r.iter().enumerate() {
        assert_eq!(*idx, i);
        assert!(*e == h.get(i).unwrap());
        assert!(m.is_empty());
    }
}

#[test]
fn search_keeps_only_matches() {
    let mut h = ClipboardHistory::new();
    h.push(text("SoccerCartoonController"));
    h.push(text("xyz"));
    let r = h.search("scc");
    assert_eq!(r.len(), 1);
    assert_eq!(r[0].0, 1);
    assert!(r[0].1 == &text("SoccerCartoonController"));
    assert_eq!(r[0].2, vec![0, 6, 13]);
}

#[test]
fn search_matches_are_char_positions() {
    let mut h = ClipboardHistory::new();
    h.push(text("some search thing"));
    let r = h.search("something");
    assert_eq!(r.len(), 1);
    assert_eq!(r[0].2, vec![0, 1, 2, 3, 12, 13, 14, 15, 16]);
}

#[test]
fn search_finds_images_by_placeholder() {
    let mut h = ClipboardHistory::new();
    h.push(ClipboardEntry::Image { rgba: vec![0; 4], width: 1, height: 1 });
    h.push(text("hello"));
    let r = h.search("image");
    assert_eq!(r.len(), 1);
    assert_eq!(r[0].0, 1);
}

#[test]
fn search_without_match_is_empty() {
    let mut h = ClipboardHistory::new();
    h.push(text("abc"));
    assert!(h.search("zzz").is_empty());
    assert!(h.search("   ").is_empty());
}

#[test]
fn search_ranks_better_matches_first() {
    let mut h = ClipboardHistory::new();
    h.push(text("the two towers"));
    h.push(text("xtxtxtx"));
    h.push(text("The Two Towers"));
    let r = h.search("TTT");
    assert_eq!(r.len(), 3);
    // exact case on word starts beats lower case word starts, which beats no word starts
    assert_eq!(r[0].0, 0);
    assert_eq!(r[1].0, 2);
    assert_eq!(r[2].0, 1);
}

#[test]
fn search_ties_keep_history_order() {
    let mut h = ClipboardHistory::new();
    h.push(text("a_release"));
    h.push(text("some_release"));
    let r = h.search("release");
    assert_eq!(r.len(), 2);
    assert_eq!(r[0].0, 0);
    assert_eq!(r[1].0, 1);
}

#[test]
fn rank_matches_is_a_stable_sort_by_score() {
    let m = |index: usize, score: i64| ScoredMatch { index, score, matched: vec![index] };
    let out = rank_matches(vec![m(0, 5), m(1, 9), m(2, 5), m(3, -1), m(4, 9)]);
    let order: Vec<usize> = out.iter().map(|x| x.index).collect();
    assert_eq!(order, vec![1, 4, 0, 2, 3]);
    assert_eq!(out[0].matched, vec![1]);
    assert!(rank_matches(Vec::new()).is_empty());
}
