//! Properties of the library as a whole, proved over the models that the
//! operations' contracts use.
use vstd::prelude::*;

use crate::entry::{
    decimal, label_view, one_line, searchable_view, size_caption, truncated, EntryView,
};
use crate::fuzzy::fuzzy_best_match;
use crate::history::{
    is_search_result, is_valid_history, lemma_pushed_valid, promoted, pushed, removed, scored_hits,
    MAX_HISTORY_ITEMS,
};
use crate::picker::{after_keys, selection_at_frame_start, PickerKeys, PickerState};
use crate::image::{fnv_mix, fnv_sampled, pixel_offset, quick_hash_spec, sample_step, FNV_OFFSET};
use crate::poller::text_changed;
use crate::ranking::{is_ranking, ranks_before};
use crate::popup::{debounced, toggle, within_grace, PopupAction, FOCUS_GRACE_MS, HOTKEY_DEBOUNCE_MS};

verus! {

proof fn lemma_first_index_of_member(s: Seq<EntryView>, i: int)
    requires
        s.no_duplicates(),
        0 <= i < s.len(),
    ensures
        s.index_of_first(s[i]) == Some(i),
{
    s.index_of_first_ensures(s[i]);
    match s.index_of_first(s[i]) {
        Some(k) => {
            assert(s[k] == s[i]);
        },
        None => {
            assert(s.contains(s[i]));
        },
    }
}

/// Recording an entry keeps the history within its bound and free of
/// duplicates, and puts the entry first.
pub proof fn law_push_keeps_history_valid(s: Seq<EntryView>, e: EntryView)
    requires
        is_valid_history(s),
    ensures
        is_valid_history(pushed(s, e)),
        pushed(s, e)[0] == e,
        pushed(s, e).contains(e),
{
    lemma_pushed_valid(s, e);
}

/// Recording an entry that is already in the history moves it to the front
/// and leaves the number of entries as it was; the other entries keep their
/// order.
pub proof fn law_push_duplicate_moves_to_front(s: Seq<EntryView>, i: int)
    requires
        is_valid_history(s),
        0 <= i < s.len(),
    ensures
        pushed(s, s[i]) == seq![s[i]] + s.remove(i),
        pushed(s, s[i]).len() == s.len(),
{
    lemma_first_index_of_member(s, i);
    assert(pushed(s, s[i]) =~= seq![s[i]] + s.remove(i));
}

/// Recording a new entry puts it in front of all the others, in their
/// order; when the history was full, the oldest entry falls off.
pub proof fn law_push_new_entry(s: Seq<EntryView>, e: EntryView)
    requires
        is_valid_history(s),
        !s.contains(e),
    ensures
        s.len() < MAX_HISTORY_ITEMS ==> pushed(s, e) == seq![e] + s,
        s.len() == MAX_HISTORY_ITEMS ==> pushed(s, e) == seq![e] + s.take(
            MAX_HISTORY_ITEMS - 1,
        ),
{
    s.index_of_first_ensures(e);
    assert(s.remove_value(e) == s);
    if s.len() == MAX_HISTORY_ITEMS {
        assert(pushed(s, e) =~= seq![e] + s.take(MAX_HISTORY_ITEMS - 1));
    }
}

/// Recording the entry that is already first changes nothing.
pub proof fn law_push_front_entry_is_noop(s: Seq<EntryView>)
    requires
        is_valid_history(s),
        s.len() > 0,
    ensures
        pushed(s, s[0]) == s,
{
    law_push_duplicate_moves_to_front(s, 0);
    assert(seq![s[0]] + s.remove(0) =~= s);
}

/// Recording the same entry twice is the same as recording it once.
pub proof fn law_push_idempotent(s: Seq<EntryView>, e: EntryView)
    requires
        is_valid_history(s),
    ensures
        pushed(pushed(s, e), e) == pushed(s, e),
{
    lemma_pushed_valid(s, e);
    law_push_front_entry_is_noop(pushed(s, e));
}

/// Moving the entry at `i` to the front is the same as recording that
/// entry again.
pub proof fn law_promote_is_repush(s: Seq<EntryView>, i: int)
    requires
        is_valid_history(s),
        0 <= i < s.len(),
    ensures
        promoted(s, i) == pushed(s, s[i]),
{
    if i == 0 {
        law_push_front_entry_is_noop(s);
    } else {
        law_push_duplicate_moves_to_front(s, i);
    }
}

/// Moving an entry to the front keeps the same entries: the history stays
/// valid and as long as it was.
pub proof fn law_promote_keeps_entries(s: Seq<EntryView>, i: int)
    requires
        is_valid_history(s),
    ensures
        is_valid_history(promoted(s, i)),
        promoted(s, i).len() == s.len(),
        promoted(s, i).to_multiset() == s.to_multiset(),
{
    if 0 < i < s.len() {
        law_promote_is_repush(s, i);
        lemma_pushed_valid(s, s[i]);
        law_push_duplicate_moves_to_front(s, i);
        let r = s.remove(i);
        assert(s =~= s.take(i) + seq![s[i]] + s.skip(i + 1));
        assert(r =~= s.take(i) + s.skip(i + 1));
        vstd::seq_lib::lemma_multiset_commutative(s.take(i) + seq![s[i]], s.skip(i + 1));
        vstd::seq_lib::lemma_multiset_commutative(s.take(i), seq![s[i]]);
        vstd::seq_lib::lemma_multiset_commutative(s.take(i), s.skip(i + 1));
        vstd::seq_lib::lemma_multiset_commutative(seq![s[i]], r);
    }
}

/// Search looks at every entry: the entries that match are exactly those for
/// which the fuzzy matcher finds the query in their text, each listed once,
/// in history order, with the score and positions that the matcher gives.
pub proof fn law_search_hits_are_the_matching_entries(entries: Seq<EntryView>, q: Seq<char>)
    requires
        entries.len() <= usize::MAX,
    ensures
        forall|i: int|
            0 <= i < entries.len() && #[trigger] fuzzy_best_match(q, searchable_view(entries[i]))
                is Some ==> exists|k: int|
                0 <= k < scored_hits(entries, q).len() && #[trigger] scored_hits(entries, q)[k].0
                    == i,
        forall|k: int|
            #![trigger scored_hits(entries, q)[k]]
            0 <= k < scored_hits(entries, q).len() ==> {
                let h = scored_hits(entries, q)[k];
                &&& h.0 < entries.len()
                &&& fuzzy_best_match(q, searchable_view(entries[h.0 as int])) matches Some(
                    (score, matched),
                ) && h.1 == score as i64 && h.2 == matched
            },
        forall|k: int, l: int|
            0 <= k < l < scored_hits(entries, q).len() ==> #[trigger] scored_hits(entries, q)[k].0
                < #[trigger] scored_hits(entries, q)[l].0,
    decreases entries.len(),
{
    if entries.len() > 0 {
        let prev_entries = entries.drop_last();
        law_search_hits_are_the_matching_entries(prev_entries, q);
        let prev = scored_hits(prev_entries, q);
        let hits = scored_hits(entries, q);
        let last = entries.len() - 1;
        assert forall|i: int| 0 <= i < last implies entries[i] == prev_entries[i] by {}
        assert forall|k: int| 0 <= k < prev.len() implies hits[k] == prev[k] by {}
        assert forall|i: int|
            0 <= i < entries.len() && #[trigger] fuzzy_best_match(q, searchable_view(entries[i]))
                is Some implies exists|k: int| 0 <= k < hits.len() && #[trigger] hits[k].0 == i by {
            if i < last {
                assert(entries[i] == prev_entries[i]);
                assert(fuzzy_best_match(q, searchable_view(prev_entries[i])) is Some);
                let k = choose|k: int| 0 <= k < prev.len() && #[trigger] prev[k].0 == i;
                assert(hits[k] == prev[k]);
            } else {
                assert(hits[prev.len() as int].0 == i);
            }
        }
        assert forall|k: int| 0 <= k < hits.len() implies {
            let h = #[trigger] hits[k];
            &&& h.0 < entries.len()
            &&& fuzzy_best_match(q, searchable_view(entries[h.0 as int])) matches Some(
                (score, matched),
            ) && h.1 == score as i64 && h.2 == matched
        } by {
            if k < prev.len() {
                assert(hits[k] == prev[k]);
                assert(entries[prev[k].0 as int] == prev_entries[prev[k].0 as int]);
            }
        }
        assert forall|k: int, l: int| 0 <= k < l < hits.len() implies #[trigger] hits[k].0
            < #[trigger] hits[l].0 by {
            assert(hits[k] == prev[k]);
            if l < prev.len() {
                assert(hits[l] == prev[l]);
            }
        }
    }
}

/// For a non-empty query, an entry is among the search results exactly when
/// the fuzzy matcher finds the query in its text; each result carries that
/// entry and the matched positions the matcher gives.
pub proof fn law_search_finds_exactly_the_matches(
    entries: Seq<EntryView>,
    q: Seq<char>,
    r: Seq<(usize, EntryView, Seq<usize>)>,
    i: int,
)
    requires
        entries.len() <= usize::MAX,
        is_search_result(entries, q, r),
        0 <= i < entries.len(),
    ensures
        (exists|k: int| 0 <= k < r.len() && #[trigger] r[k].0 == i) <==> fuzzy_best_match(
            q,
            searchable_view(entries[i]),
        ) is Some,
        forall|k: int|
            0 <= k < r.len() && #[trigger] r[k].0 == i ==> r[k].1 == entries[i] && (fuzzy_best_match(
                q,
                searchable_view(entries[i]),
            ) matches Some((score, matched)) && r[k].2 == matched),
{
    law_search_hits_are_the_matching_entries(entries, q);
    let hits = scored_hits(entries, q);
    let perm = choose|perm: Seq<int>|
        {
            &&& is_ranking(hits, perm)
            &&& r.len() == perm.len()
            &&& forall|k: int|
                #![trigger r[k]]
                0 <= k < r.len() ==> {
                    &&& r[k].0 == hits[perm[k]].0
                    &&& r[k].1 == entries[r[k].0 as int]
                    &&& r[k].2 == hits[perm[k]].2
                }
        };
    if fuzzy_best_match(q, searchable_view(entries[i])) is Some {
        let k = choose|k: int| 0 <= k < hits.len() && #[trigger] hits[k].0 == i;
        lemma_ranking_covers(hits, perm, k);
        let j = choose|j: int| 0 <= j < perm.len() && perm[j] == k;
        assert(r[j].0 == i);
    }
    assert forall|k: int| 0 <= k < r.len() && #[trigger] r[k].0 == i implies r[k].1 == entries[i]
        && (fuzzy_best_match(q, searchable_view(entries[i])) matches Some((score, matched))
        && r[k].2 == matched) by {
        assert(0 <= perm[k] < hits.len());
        let h = hits[perm[k]];
        assert(h.0 == i);
    }
    if exists|k: int| 0 <= k < r.len() && #[trigger] r[k].0 == i {
        let k = choose|k: int| 0 <= k < r.len() && #[trigger] r[k].0 == i;
        assert(0 <= perm[k] < hits.len());
        let h = hits[perm[k]];
        assert(h.0 == i);
    }
}

/// Deleting at an index inside the history removes exactly that entry: the
/// history is one shorter, the entries before it stay, the entries after it
/// move up by one, and the deleted entry is no longer there. An index past
/// the end deletes nothing.
pub proof fn law_remove_deletes_that_entry(s: Seq<EntryView>, i: int)
    requires
        is_valid_history(s),
    ensures
        0 <= i < s.len() ==> {
            &&& removed(s, i).len() == s.len() - 1
            &&& forall|j: int| 0 <= j < i ==> #[trigger] removed(s, i)[j] == s[j]
            &&& forall|j: int| i <= j < s.len() - 1 ==> #[trigger] removed(s, i)[j] == s[j + 1]
            &&& !removed(s, i).contains(s[i])
        },
        i >= s.len() ==> removed(s, i) == s,
{
    if 0 <= i < s.len() {
        crate::history::lemma_remove_keeps_valid(s, i);
    }
}

proof fn lemma_ranking_no_duplicates(h: Seq<(usize, i64, Seq<usize>)>, p: Seq<int>)
    requires
        is_ranking(h, p),
    ensures
        p.no_duplicates(),
{
    assert forall|i: int, j: int| 0 <= i < p.len() && 0 <= j < p.len() && i != j implies p[i]
        != p[j] by {
        if i < j {
            assert(ranks_before(h, p[i], p[j]));
        } else {
            assert(ranks_before(h, p[j], p[i]));
        }
    }
}

proof fn lemma_ranking_covers(h: Seq<(usize, i64, Seq<usize>)>, p: Seq<int>, a: int)
    requires
        is_ranking(h, p),
        0 <= a < h.len(),
    ensures
        p.contains(a),
{
    lemma_ranking_no_duplicates(h, p);
    p.unique_seq_to_set();
    let range = vstd::set_lib::set_int_range(0, h.len() as int);
    vstd::set_lib::lemma_int_range(0, h.len() as int);
    assert(p.to_set().subset_of(range)) by {
        assert forall|x: int| p.to_set().contains(x) implies range.contains(x) by {
            let k = choose|k: int| 0 <= k < p.len() && p[k] == x;
            assert(0 <= p[k] < h.len());
        }
    }
    vstd::set_lib::lemma_subset_equality(p.to_set(), range);
    assert(range.contains(a));
    assert(p.to_set().contains(a));
}

proof fn lemma_rankings_agree_below(
    h: Seq<(usize, i64, Seq<usize>)>,
    p1: Seq<int>,
    p2: Seq<int>,
    k: int,
)
    requires
        is_ranking(h, p1),
        is_ranking(h, p2),
        0 <= k <= h.len(),
    ensures
        forall|j: int| 0 <= j < k ==> p1[j] == p2[j],
    decreases k,
{
    if k > 0 {
        let i = k - 1;
        lemma_rankings_agree_below(h, p1, p2, i);
        let a = p1[i];
        let b = p2[i];
        if a != b {
            lemma_ranking_no_duplicates(h, p1);
            lemma_ranking_no_duplicates(h, p2);
            assert(0 <= a < h.len() && 0 <= b < h.len());
            if ranks_before(h, a, b) {
                lemma_ranking_covers(h, p2, a);
                let j = choose|j: int| 0 <= j < p2.len() && p2[j] == a;
                if j < i {
                    assert(p1[j] == p2[j]);
                } else {
                    assert(ranks_before(h, p2[i], p2[j]));
                }
            } else {
                lemma_ranking_covers(h, p1, b);
                let j = choose|j: int| 0 <= j < p1.len() && p1[j] == b;
                if j < i {
                    assert(p1[j] == p2[j]);
                } else {
                    assert(ranks_before(h, p1[i], p1[j]));
                }
            }
        }
    }
}

/// The order of search results is fully determined: there is one ranking
/// of a list of matches, best score first and ties in the order found.
pub proof fn law_ranking_is_unique(h: Seq<(usize, i64, Seq<usize>)>, p1: Seq<int>, p2: Seq<int>)
    requires
        is_ranking(h, p1),
        is_ranking(h, p2),
    ensures
        p1 == p2,
{
    lemma_rankings_agree_below(h, p1, p2, h.len() as int);
    assert(p1 =~= p2);
}

proof fn lemma_truncated_keeps_single_line(line: Seq<char>, max_chars: nat)
    requires
        !line.contains('\n'),
        !line.contains('\r'),
    ensures
        !truncated(line, max_chars).contains('\n'),
        !truncated(line, max_chars).contains('\r'),
{
    let t = truncated(line, max_chars);
    assert forall|k: int| 0 <= k < t.len() implies t[k] != '\n' && t[k] != '\r' by {
        if line.len() > max_chars && k < max_chars {
            assert(t[k] == line[k]);
        } else if line.len() <= max_chars {
            assert(t[k] == line[k]);
        }
    }
}

/// A label is a single line: it holds no line feed and no carriage return.
pub proof fn law_label_is_single_line(e: EntryView, max_chars: nat)
    ensures
        !label_view(e, max_chars).contains('\n'),
        !label_view(e, max_chars).contains('\r'),
{
    reveal_strlit("(empty)");
    reveal_strlit("Image ");
    match e {
        EntryView::Text(s) => {
            let line = one_line(s);
            assert forall|k: int| 0 <= k < line.len() implies line[k] != '\n' && line[k] != '\r' by {}
            let empty = "(empty)"@;
            assert forall|k: int| 0 <= k < empty.len() implies empty[k] != '\n' && empty[k] != '\r' by {}
            lemma_truncated_keeps_single_line(line, max_chars);
            lemma_truncated_keeps_single_line(empty, max_chars);
        },
        EntryView::Image { width, height, .. } => {
            crate::entry::lemma_size_caption_has_no_line_break(width, height);
            let prefix = "Image "@;
            let c = size_caption(width, height);
            let line = prefix + c;
            assert forall|k: int| 0 <= k < line.len() implies line[k] != '\n' && line[k] != '\r' by {
                if k >= prefix.len() {
                    assert(line[k] == c[k - prefix.len()]);
                }
            }
            lemma_truncated_keeps_single_line(line, max_chars);
        },
    }
}

/// Every label is truncated to `max_chars`: it is at most `max_chars`
/// characters long, or exactly `max_chars` characters followed by an
/// ellipsis. A text that fits on one line within `max_chars` is its own
/// label.
pub proof fn law_label_length(e: EntryView, max_chars: nat)
    ensures
        ({
            let l = label_view(e, max_chars);
            l.len() <= max_chars || (l.len() == max_chars + 1 && l.last() == '\u{2026}')
        }),
        e matches EntryView::Text(s) ==> (0 < one_line(s).len() <= max_chars ==> label_view(
            e,
            max_chars,
        ) == one_line(s)),
{
}

/// After a frame starts, the selection lies within the results, if there
/// are any.
pub proof fn law_frame_start_selection_in_range(s: PickerState, count: usize)
    requires
        count > 0,
    ensures
        selection_at_frame_start(s, count) < count,
{
}

/// The arrow keys keep a selection that lies within the results there.
pub proof fn law_keys_keep_selection_in_range(keys: PickerKeys, sel: usize, count: nat)
    requires
        sel < count,
    ensures
        after_keys(keys, sel, count) < count,
{
}

/// Arrow Down and then, in a later frame, Arrow Up come back to the same
/// result, unless the selection was already on the last one.
pub proof fn law_down_then_up_returns(sel: usize, count: usize)
    requires
        sel + 1 < count,
    ensures
        ({
            let down = PickerKeys {
                arrow_down: true,
                arrow_up: false,
                enter: false,
                escape: false,
                delete: false,
            };
            let up = PickerKeys {
                arrow_down: false,
                arrow_up: true,
                enter: false,
                escape: false,
                delete: false,
            };
            after_keys(up, after_keys(down, sel, count as nat), count as nat) == sel
        }),
{
}

/// Once the poller has recorded a text, reading the same text again does
/// not record it a second time.
pub proof fn law_same_text_recorded_once(last: Option<String>, text: Seq<char>)
    requires
        last matches Some(t) && t@ == text,
    ensures
        !text_changed(last, text),
{
}

/// At the start of a frame, a query that changed in any way (grown, shrunk
/// or cleared) sends the selection back to the first result. With the query
/// unchanged, a selection inside the results stays where it is, one past the
/// end moves to the last result, and with no results it is left alone.
pub proof fn law_frame_start_selection(s: PickerState, count: usize)
    ensures
        s.search_query@ != s.prev_search_query@ ==> selection_at_frame_start(s, count) == 0,
        s.search_query@ == s.prev_search_query@ && s.selected_index < count
            ==> selection_at_frame_start(s, count) == s.selected_index,
        s.search_query@ == s.prev_search_query@ && count > 0 && s.selected_index >= count
            ==> selection_at_frame_start(s, count) == count - 1,
        s.search_query@ == s.prev_search_query@ && count == 0 ==> selection_at_frame_start(
            s,
            count,
        ) == s.selected_index,
{
}

/// The poller counts a text as new exactly when no text was seen yet or it
/// differs in any way from the last text seen.
pub proof fn law_text_change_detection(last: String, text: Seq<char>)
    ensures
        text_changed(Some(last), text) <==> last@ != text,
        text_changed(None, text),
{
}

/// Losing focus within the grace period after opening is ignored; at the
/// end of the grace period or any time later it counts, as it does when no
/// opening time is known.
pub proof fn law_focus_grace_period(t: u64, now: u64)
    ensures
        t <= now < t + FOCUS_GRACE_MS ==> within_grace(Some(t), now),
        now >= t + FOCUS_GRACE_MS ==> !within_grace(Some(t), now),
        !within_grace(None, now),
{
}

/// The label of a text shows the text on one line: each line feed and
/// carriage return as a space, every other character as it is. When that
/// line is longer than `max_chars`, the label is its first `max_chars`
/// characters and an ellipsis.
pub proof fn law_label_shows_the_text(s: Seq<char>, max_chars: nat)
    requires
        s.len() > 0,
    ensures
        ({
            let l = label_view(EntryView::Text(s), max_chars);
            &&& s.len() <= max_chars ==> l.len() == s.len()
            &&& s.len() > max_chars ==> l.len() == max_chars + 1 && l[max_chars as int]
                == '\u{2026}'
            &&& forall|j: int|
                0 <= j < s.len() && j < max_chars ==> #[trigger] l[j] == (if s[j] == '\n' || s[j]
                    == '\r' {
                    ' '
                } else {
                    s[j]
                })
        }),
{
}

/// The label of an image begins with "Image " when there is room for it.
pub proof fn law_image_label_prefix(e: EntryView, max_chars: nat)
    requires
        e is Image,
        max_chars >= 6,
    ensures
        label_view(e, max_chars).take(6) == "Image "@,
{
    reveal_strlit("Image ");
    match e {
        EntryView::Image { width, height, .. } => {
            let line = "Image "@ + size_caption(width, height);
            assert(line.take(6) =~= "Image "@);
            if line.len() > max_chars {
                assert(line.take(max_chars as int).push('\u{2026}').take(6) =~= "Image "@);
            }
        },
        _ => {},
    }
}

/// The decimal representation of `n` is a non-empty string of digits
/// whose value is `n`, without a leading zero unless `n` is zero.
pub proof fn law_decimal_value(n: nat)
    ensures
        decimal(n).len() > 0,
        forall|j: int| 0 <= j < decimal(n).len() ==> '0' <= #[trigger] decimal(n)[j] <= '9',
        digits_value(decimal(n)) == n,
        decimal(n).len() > 1 ==> decimal(n)[0] != '0',
    decreases n,
{
    let d = decimal(n);
    let last = n % 10;
    assert(crate::entry::digit_char(last) as int == 48 + last);
    if n >= 10 {
        law_decimal_value(n / 10);
        let p = decimal(n / 10);
        assert(d.drop_last() =~= p);
        assert(d.last() == crate::entry::digit_char(last));
        assert forall|j: int| 0 <= j < d.len() implies '0' <= #[trigger] d[j] <= '9' by {
            if j < p.len() {
                assert(d[j] == p[j]);
            }
        }
        assert(d[0] == p[0]);
        if n / 10 < 10 {
            assert(crate::entry::digit_char(n / 10) as int == 48 + n / 10);
        } else {
            law_decimal_value(n / 100);
            assert(n / 100 == (n / 10) / 10);
            assert(p.len() > 1);
        }
        assert(n == (n / 10) * 10 + last) by (nonlinear_arith)
            requires
                last == n % 10,
        ;
        assert(digits_value(d) == digits_value(p) * 10 + (d.last() as nat - 48) as nat);
        assert((d.last() as nat - 48) as nat == last);
    } else {
        assert(d.drop_last() =~= Seq::<char>::empty());
        assert(digits_value(d) == digits_value(d.drop_last()) * 10 + (d.last() as nat - 48) as nat);
        assert(digits_value(d.drop_last()) == 0);
    }
}

/// The number a string of decimal digits stands for.
pub open spec fn digits_value(d: Seq<char>) -> nat
    decreases d.len(),
{
    if d.len() == 0 {
        0
    } else {
        digits_value(d.drop_last()) * 10 + (d.last() as nat - 48) as nat
    }
}

/// Arrow Down alone moves the selection one result down, and stays on the
/// last result; Arrow Up alone moves it one result up, and stays on the
/// first.
pub proof fn law_arrow_keys_move_by_one(sel: usize, count: nat)
    requires
        sel < count,
        count <= usize::MAX,
    ensures
        ({
            let down = PickerKeys {
                arrow_down: true,
                arrow_up: false,
                enter: false,
                escape: false,
                delete: false,
            };
            let up = PickerKeys {
                arrow_down: false,
                arrow_up: true,
                enter: false,
                escape: false,
                delete: false,
            };
            &&& after_keys(down, sel, count) == (if sel + 1 < count {
                sel + 1
            } else {
                sel as int
            })
            &&& after_keys(up, sel, count) == (if sel > 0 {
                sel - 1
            } else {
                0
            })
        }),
{
}

/// The tray icon and the hotkey open the popup when it is closed and close
/// it when it is open.
pub proof fn law_toggle(open: bool)
    ensures
        open ==> toggle(open) == PopupAction::Close,
        !open ==> toggle(open) == PopupAction::Open,
{
}

/// In a search result, a better score comes first, and of two equal scores
/// the entry found first (the newer one) comes first.
pub proof fn law_ranking_order(h: Seq<(usize, i64, Seq<usize>)>, perm: Seq<int>, k: int, l: int)
    requires
        is_ranking(h, perm),
        0 <= k < l < perm.len(),
    ensures
        h[perm[k]].1 >= h[perm[l]].1,
        h[perm[k]].1 == h[perm[l]].1 ==> perm[k] < perm[l],
{
    assert(ranks_before(h, perm[k], perm[l]));
}

/// RGBA pixels are laid out row by row: the four channels of a pixel are
/// consecutive, the next pixel of a row follows them, and the next row
/// starts `w` pixels later; every offset of a `w` by `h` image lies in its
/// buffer.
pub proof fn law_pixel_layout(w: int, h: int, x: int, y: int, c: int)
    requires
        0 <= x < w,
        0 <= y < h,
        0 <= c < 4,
    ensures
        pixel_offset(w, x, y, c) == pixel_offset(w, x, y, 0) + c,
        pixel_offset(w, x + 1, y, 0) == pixel_offset(w, x, y, 0) + 4,
        pixel_offset(w, x, y + 1, 0) == pixel_offset(w, x, y, 0) + 4 * w,
        pixel_offset(w, 0, 0, 0) == 0,
        0 <= pixel_offset(w, x, y, c) < w * h * 4,
{
    assert((y + 1) * w == y * w + w) by (nonlinear_arith);
    assert(0 <= y * w) by (nonlinear_arith)
        requires
            0 <= y,
            0 <= w,
    ;
    assert(y * w + x < w * h) by (nonlinear_arith)
        requires
            0 <= x < w,
            0 <= y < h,
    ;
}

proof fn lemma_fnv_every_byte_push(d: Seq<u8>, b: u8, i: nat, h: u64)
    requires
        i <= d.len(),
    ensures
        fnv_sampled(d.push(b), 1, i, h) == fnv_mix(fnv_sampled(d, 1, i, h), b),
    decreases d.len() - i,
{
    if i < d.len() {
        assert(d.push(b)[i as int] == d[i as int]);
        lemma_fnv_every_byte_push(d, b, i + 1, fnv_mix(h, d[i as int]));
        assert(fnv_sampled(d, 1, i, h) == fnv_sampled(d, 1, i + 1, fnv_mix(h, d[i as int])));
    } else {
        assert(d.push(b)[i as int] == b);
        assert(fnv_sampled(d, 1, i, h) == h);
        assert(fnv_sampled(d.push(b), 1, i + 1, fnv_mix(h, b)) == fnv_mix(h, b));
    }
}

/// The change-detection hash of nothing is the FNV-1a offset basis. Data
/// shorter than 2048 bytes is hashed byte by byte: one more byte at the end
/// mixes that byte into the hash of the rest. Longer data is sampled every
/// `len / 1024` bytes.
pub proof fn law_hash_of_small_data_uses_every_byte(d: Seq<u8>, b: u8)
    ensures
        quick_hash_spec(Seq::empty()) == FNV_OFFSET,
        d.len() + 1 < 2048 ==> quick_hash_spec(d.push(b)) == fnv_mix(quick_hash_spec(d), b),
        d.len() >= 2048 ==> sample_step(d.len()) == d.len() / 1024,
        sample_step(d.len()) >= 1,
{
    if d.len() + 1 < 2048 {
        assert(sample_step(d.len()) == 1);
        assert(sample_step(d.push(b).len()) == 1);
        lemma_fnv_every_byte_push(d, b, 0, FNV_OFFSET);
    }
}

/// A hotkey press less than the debounce interval after an accepted press
/// is ignored; one at the end of the interval or later is not.
pub proof fn law_hotkey_debounce(t: u64, now: u64)
    ensures
        t <= now < t + HOTKEY_DEBOUNCE_MS ==> debounced(Some(t), now),
        now >= t + HOTKEY_DEBOUNCE_MS ==> !debounced(Some(t), now),
{
}

} // verus!
