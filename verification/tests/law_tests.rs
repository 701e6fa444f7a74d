use clipboard_history_manager::entry::ClipboardEntry;
use clipboard_history_manager::history::ClipboardHistory;
use clipboard_history_manager::picker::{PickerKeys, PickerState};

fn text(s: &str) -> ClipboardEntry {
    ClipboardEntry::Text(s.to_string())
}

fn snapshot(h: &ClipboardHistory) -> Vec<ClipboardEntry> {
    h.all().into_iter().map(|(_, e)| e.clone()).collect()
}

fn sample() -> ClipboardHistory {
    let mut h = ClipboardHistory::new();
    for s in ["one", "two", "three", "four"] {
        h.push(text(s));
    }
    h
}

#[test]
fn pushing_twice_equals_pushing_once() {
    let mut a = sample();
    let mut b = sample();
    a.push(text("two"));
    b.push(text("two"));
    b.push(text("two"));
    assert!(snapshot(&a) == snapshot(&b));
}

#[test]
fn pushing_front_entry_changes_nothing() {
    let mut h = sample();
    let before = snapshot(&h);
    let front = h.get(0).unwrap().clone();
    h.push(front);
    assert!(snapshot(&h) == before);
}

#[test]
fn promote_equals_pushing_the_entry_again() {
    for i in 0..4 {
        let mut a = sample();
        let mut b = sample();
        let e = b.get(i).unwrap().clone();
        a.promote(i);
        b.push(e);
        assert!(snapshot(&a) == snapshot(&b));
    }
}

#[test]
fn promote_keeps_the_same_entries() {
    let mut h = sample();
    let mut before: Vec<String> = snapshot(&h).iter().map(|e| e.display_text()).collect();
    h.promote(3);
    let mut after: Vec<String> = snapshot(&h).iter().map(|e| e.display_text()).collect();
    before.sort();
    after.sort();
    assert_eq!(before, after);
}

#[test]
fn labels_are_single_lines() {
    for s in ["a\nb", "\r\n\r\n", "line\nline\nline\nline", ""] {
        for max in [0, 1, 3, 100] {
            let l = text(s).label(max);
            assert!(!l.contains('\n') && !l.contains('\r'));
        }
    }
    let img = ClipboardEntry::Image { rgba: Vec::new(), width: 0, height: 0 };
    assert_eq!(img.label(1), "I\u{2026}");
    assert_eq!(img.label(9), "Image 0\u{d7}0");
}

#[test]
fn label_length_is_bounded() {
    let entries = vec![
        text("abcdefghij"),
        text(""),
        text("\n\n\n"),
        ClipboardEntry::Image { rgba: Vec::new(), width: 1920, height: 1080 },
    ];
    for e in &entries {
        for max in 0..20 {
            let l = e.label(max);
            assert!(l.trim_end_matches('\u{2026}').chars().count() <= max);
            assert!(l.chars().count() <= max + 1);
        }
    }
}

#[test]
fn selection_stays_in_results() {
    let results = vec![0, 1, 2];
    let mut p = PickerState::new();
    p.selected_index = 9;
    p.begin_frame(results.len());
    assert!(p.selected_index < results.len());
    for _ in 0..5 {
        p.handle_keys(PickerKeys { arrow_down: true, arrow_up: false, enter: false, escape: false, delete: false }, &results);
        assert!(p.selected_index < results.len());
    }
}

#[test]
fn down_then_up_returns_to_same_result() {
    let results = vec![0, 1, 2];
    let mut p = PickerState::new();
    p.handle_keys(PickerKeys { arrow_down: true, arrow_up: false, enter: false, escape: false, delete: false }, &results);
    p.handle_keys(PickerKeys { arrow_down: false, arrow_up: true, enter: false, escape: false, delete: false }, &results);
    assert_eq!(p.selected_index, 0);
}
