//! Bounded, deduplicated clipboard history with fuzzy search.
use std::collections::VecDeque;

use vstd::prelude::*;

use crate::entry::{searchable_view, ClipboardEntry, EntryView};
use crate::fuzzy::{fuzzy_best_match, fuzzy_match};
use crate::ranking::{is_ranking, matches_view, rank_matches, ranked_as, ScoredMatch};

verus! {

broadcast use vstd::std_specs::vecdeque::group_vec_dequeue_axioms;

/// The most entries the history keeps; the oldest fall off beyond it.
pub const MAX_HISTORY_ITEMS: usize = 50;

/// A history is at most `MAX_HISTORY_ITEMS` long and never holds the same
/// entry twice.
pub open spec fn is_valid_history(s: Seq<EntryView>) -> bool {
    &&& s.len() <= MAX_HISTORY_ITEMS
    &&& s.no_duplicates()
}

/// The history after `e` is recorded: `e` goes to the front, an older copy
/// of it is dropped, and the oldest entries beyond the bound fall off.
pub open spec fn pushed(s: Seq<EntryView>, e: EntryView) -> Seq<EntryView> {
    let t = seq![e] + s.remove_value(e);
    if t.len() > MAX_HISTORY_ITEMS {
        t.take(MAX_HISTORY_ITEMS as int)
    } else {
        t
    }
}

/// The history after the entry at `i` is moved to the front; any other
/// index leaves it as it is.
pub open spec fn promoted(s: Seq<EntryView>, i: int) -> Seq<EntryView> {
    if 0 < i < s.len() {
        seq![s[i]] + s.remove(i)
    } else {
        s
    }
}

/// The history after the entry at `i` is deleted; an index past the end
/// leaves it as it is.
pub open spec fn removed(s: Seq<EntryView>, i: int) -> Seq<EntryView> {
    if 0 <= i < s.len() {
        s.remove(i)
    } else {
        s
    }
}

/// Deleting an entry keeps a history valid, and the deleted entry is gone.
pub(crate) proof fn lemma_remove_keeps_valid(s: Seq<EntryView>, i: int)
    requires
        is_valid_history(s),
        0 <= i < s.len(),
    ensures
        is_valid_history(s.remove(i)),
        !s.remove(i).contains(s[i]),
{
    let r = s.remove(i);
    assert forall|a: int, b: int| 0 <= a < r.len() && 0 <= b < r.len() && a != b implies r[a]
        != r[b] by {
        let sa = if a < i { a } else { a + 1 };
        let sb = if b < i { b } else { b + 1 };
        assert(r[a] == s[sa]);
        assert(r[b] == s[sb]);
    }
    assert forall|k: int| 0 <= k < r.len() implies r[k] != s[i] by {
        let sk = if k < i { k } else { k + 1 };
        assert(r[k] == s[sk]);
    }
}

/// Recording an entry keeps a history valid and puts the entry first.
pub(crate) proof fn lemma_pushed_valid(s: Seq<EntryView>, e: EntryView)
    requires
        is_valid_history(s),
    ensures
        is_valid_history(pushed(s, e)),
        pushed(s, e).len() >= 1,
        pushed(s, e)[0] == e,
{
    s.index_of_first_ensures(e);
    let rest = s.remove_value(e);
    match s.index_of_first(e) {
        Some(i) => {
            lemma_remove_keeps_valid(s, i);
        },
        None => {},
    }
    lemma_prepend_no_duplicates(rest, e);
    let t = seq![e] + rest;
    if t.len() > MAX_HISTORY_ITEMS {
        let c = t.take(MAX_HISTORY_ITEMS as int);
        assert forall|a: int, b: int| 0 <= a < c.len() && 0 <= b < c.len() && a != b implies c[a]
            != c[b] by {
            assert(c[a] == t[a] && c[b] == t[b]);
        }
    }
    assert(rest.len() <= s.len());
}

/// The entries that match `query`, in history order: each with its index,
/// its score and its matched character positions.
pub open spec fn scored_hits(entries: Seq<EntryView>, query: Seq<char>) -> Seq<
    (usize, i64, Seq<usize>),
>
    decreases entries.len(),
{
    if entries.len() == 0 {
        Seq::empty()
    } else {
        let prev = scored_hits(entries.drop_last(), query);
        match fuzzy_best_match(query, searchable_view(entries.last())) {
            Some((score, matched)) => prev.push(
                ((entries.len() - 1) as usize, score as i64, matched),
            ),
            None => prev,
        }
    }
}

/// `r` is what a search of `entries` for a non-empty `query` gives: the
/// matching entries, best score first (ties in history order), each with
/// its index and its matched character positions.
pub open spec fn is_search_result(
    entries: Seq<EntryView>,
    query: Seq<char>,
    r: Seq<(usize, EntryView, Seq<usize>)>,
) -> bool {
    let hits = scored_hits(entries, query);
    exists|perm: Seq<int>|
        {
            &&& is_ranking(hits, perm)
            &&& r.len() == perm.len()
            &&& forall|k: int|
                #![trigger r[k]]
                0 <= k < r.len() ==> {
                    &&& r[k].0 == hits[perm[k]].0
                    &&& r[k].1 == entries[r[k].0 as int]
                    &&& r[k].2 == hits[perm[k]].2
                }
        }
}

pub open spec fn search_view(r: Seq<(usize, &ClipboardEntry, Vec<usize>)>) -> Seq<
    (usize, EntryView, Seq<usize>),
> {
    r.map_values(|t: (usize, &ClipboardEntry, Vec<usize>)| (t.0, t.1@, t.2@))
}

/// Bounded, deduplicated clipboard history with fuzzy search.
pub struct ClipboardHistory {
    items: VecDeque<ClipboardEntry>,
}

pub open spec fn entries_view(items: Seq<ClipboardEntry>) -> Seq<EntryView> {
    items.map_values(|e: ClipboardEntry| e@)
}

impl View for ClipboardHistory {
    type V = Seq<EntryView>;

    closed spec fn view(&self) -> Seq<EntryView> {
        entries_view(self.items@)
    }
}

/// Index of the first entry in `items` equal to `entry`.
fn find_entry(items: &VecDeque<ClipboardEntry>, entry: &ClipboardEntry) -> (r: Option<usize>)
    ensures
        match r {
            Some(p) => {
                &&& p < items@.len()
                &&& entries_view(items@).index_of_first(entry@) == Some(p as int)
            },
            None => !entries_view(items@).contains(entry@),
        },
{
    let ghost vs = entries_view(items@);
    proof {
        vs.index_of_first_ensures(entry@);
    }
    let n = items.len();
    let mut i: usize = 0;
    while i < n
        invariant
            n == items@.len(),
            vs == entries_view(items@),
            i <= n,
            forall|j: int| 0 <= j < i ==> vs[j] != entry@,
            match vs.index_of_first(entry@) {
                Some(index) => {
                    &&& vs.contains(entry@)
                    &&& 0 <= index < vs.len()
                    &&& vs[index] == entry@
                    &&& forall|j: int| 0 <= j < index < vs.len() ==> vs[j] != entry@
                },
                None => !vs.contains(entry@),
            },
        decreases n - i,
    {
        if items[i].same_as(entry) {
            assert(vs[i as int] == entry@);
            assert(vs.contains(entry@));
            return Some(i);
        }
        i = i + 1;
    }
    None
}

impl ClipboardHistory {
    #[verifier::type_invariant]
    spec fn inv(self) -> bool {
        is_valid_history(self@)
    }

    /// An empty history.
    pub fn new() -> (h: Self)
        ensures
            h@ == Seq::<EntryView>::empty(),
    {
        let h = ClipboardHistory { items: VecDeque::new() };
        assert(h@ =~= Seq::<EntryView>::empty());
        h
    }

    /// Push a new entry. Removes older duplicate if present, trims to max size.
    pub fn push(&mut self, entry: ClipboardEntry)
        ensures
            final(self)@ == pushed(old(self)@, entry@),
            is_valid_history(final(self)@),
    {
        proof {
            use_type_invariant(&*self);
            lemma_pushed_valid(self@, entry@);
        }
        let ghost s = self@;
        let ghost e = entry@;
        let mut items: VecDeque<ClipboardEntry> = VecDeque::new();
        std::mem::swap(&mut items, &mut self.items);
        assert(entries_view(items@) == s);
        proof {
            s.index_of_first_ensures(e);
        }
        let pos = find_entry(&items, &entry);
        match pos {
            Some(p) => {
                items.remove(p);
                assert(entries_view(items@) =~= s.remove(p as int));
            },
            None => {},
        }
        assert(entries_view(items@) == s.remove_value(e));
        items.push_front(entry);
        let ghost t = seq![e] + s.remove_value(e);
        assert(entries_view(items@) =~= t);
        while items.len() > MAX_HISTORY_ITEMS
            invariant
                items@.len() <= t.len(),
                entries_view(items@) == t.take(items@.len() as int),
                items@.len() >= MAX_HISTORY_ITEMS || items@.len() == t.len(),
            decreases items@.len(),
        {
            items.pop_back();
            assert(entries_view(items@) =~= t.take(items@.len() as int));
        }
        assert(entries_view(items@) =~= pushed(s, e));
        self.items = items;
    }

    /// The entry at `index`, front first.
    pub fn get(&self, index: usize) -> (r: Option<&ClipboardEntry>)
        ensures
            index < self@.len() ==> (r matches Some(e) && e@ == self@[index as int]),
            index >= self@.len() ==> r is None,
    {
        if index < self.items.len() {
            Some(&self.items[index])
        } else {
            None
        }
    }

    /// How many entries the history holds.
    pub fn len(&self) -> (n: usize)
        ensures
            n == self@.len(),
            is_valid_history(self@),
    {
        proof {
            use_type_invariant(self);
        }
        self.items.len()
    }

    /// Whether the history holds no entry.
    pub fn is_empty(&self) -> (b: bool)
        ensures
            b == (self@.len() == 0),
    {
        self.items.len() == 0
    }

    /// Forget every entry.
    pub fn clear(&mut self)
        ensures
            final(self)@ == Seq::<EntryView>::empty(),
    {
        let mut items: VecDeque<ClipboardEntry> = VecDeque::new();
        std::mem::swap(&mut items, &mut self.items);
        items.clear();
        assert(entries_view(items@) =~= Seq::<EntryView>::empty());
        self.items = items;
    }

    /// Return all items (unfiltered), as (index, entry) pairs.
    pub fn all(&self) -> (r: Vec<(usize, &ClipboardEntry)>)
        ensures
            r@.len() == self@.len(),
            forall|i: int| #![trigger r@[i]] 0 <= i < r@.len() ==> r@[i].0 == i && r@[i].1@ == self@[i],
    {
        let n = self.items.len();
        let mut r: Vec<(usize, &ClipboardEntry)> = Vec::new();
        let mut i: usize = 0;
        while i < n
            invariant
                n == self.items@.len(),
                i <= n,
                r@.len() == i,
                forall|j: int| #![trigger r@[j]] 0 <= j < i ==> r@[j].0 == j && r@[j].1@ == self@[j],
            decreases n - i,
        {
            let e = &self.items[i];
            assert(self@[i as int] == e@);
            r.push((i, e));
            i = i + 1;
        }
        r
    }

    /// Fuzzy search across entries. Returns (original_index, entry,
    /// matched_indices) sorted by score, best first; an empty query lists
    /// every entry in order with no matched positions.
    pub fn search(&self, query: &str) -> (r: Vec<(usize, &ClipboardEntry, Vec<usize>)>)
        ensures
            query@.len() == 0 ==> {
                &&& r@.len() == self@.len()
                &&& forall|i: int|
                    #![trigger r@[i]]
                    0 <= i < r@.len() ==> r@[i].0 == i && r@[i].1@ == self@[i] && r@[i].2@
                        == Seq::<usize>::empty()
            },
            query@.len() > 0 ==> is_search_result(self@, query@, search_view(r@)),
    {
        let n = self.items.len();
        if query.is_empty() {
            let mut r: Vec<(usize, &ClipboardEntry, Vec<usize>)> = Vec::new();
            let mut i: usize = 0;
            while i < n
                invariant
                    n == self.items@.len(),
                    i <= n,
                    r@.len() == i,
                    forall|j: int|
                        #![trigger r@[j]]
                        0 <= j < i ==> r@[j].0 == j && r@[j].1@ == self@[j] && r@[j].2@
                            == Seq::<usize>::empty(),
                decreases n - i,
            {
                let e = &self.items[i];
                assert(self@[i as int] == e@);
                r.push((i, e, Vec::new()));
                i = i + 1;
            }
            return r;
        }
        let ghost entries = self@;
        let mut scored: Vec<ScoredMatch> = Vec::new();
        let mut idx: usize = 0;
        while idx < n
            invariant
                n == self.items@.len(),
                entries == self@,
                entries.len() == n,
                idx <= n,
                matches_view(scored@) == scored_hits(entries.take(idx as int), query@),
                forall|k: int| 0 <= k < scored@.len() ==> #[trigger] scored@[k].index < idx,
            decreases n - idx,
        {
            let entry = &self.items[idx];
            assert(entries[idx as int] == entry@);
            let haystack = entry.searchable_text();
            let found = fuzzy_match(query, haystack);
            let ghost prefix = entries.take(idx as int + 1);
            assert(prefix.drop_last() =~= entries.take(idx as int));
            assert(prefix.last() == entry@);
            match found {
                Some((score, matched)) => {
                    let ghost before = scored@;
                    scored.push(ScoredMatch { index: idx, score: score as i64, matched });
                    assert(matches_view(scored@) =~= matches_view(before).push(
                        (idx, score as i64, matched@),
                    ));
                },
                None => {},
            }
            idx = idx + 1;
        }
        assert(entries.take(n as int) =~= entries);
        let ghost hits = matches_view(scored@);
        assert(forall|k: int| 0 <= k < hits.len() ==> #[trigger] hits[k].0 < n);
        let ranked = rank_matches(scored);
        let ghost perm = choose|p: Seq<int>| ranked_as(hits, matches_view(ranked@), p);
        let ghost rv = matches_view(ranked@);
        let ghost ranked_seq = ranked@;
        let mut r: Vec<(usize, &ClipboardEntry, Vec<usize>)> = Vec::new();
        for m in it: ranked
            invariant
                it.seq() == ranked_seq,
                rv == matches_view(ranked_seq),
                n == self.items@.len(),
                entries == self@,
                hits == scored_hits(entries, query@),
                ranked_as(hits, rv, perm),
                forall|k: int| 0 <= k < hits.len() ==> #[trigger] hits[k].0 < n,
                r@.len() == it.index(),
                forall|k: int|
                    #![trigger r@[k]]
                    0 <= k < r@.len() ==> {
                        &&& r@[k].0 == hits[perm[k]].0
                        &&& r@[k].1@ == entries[r@[k].0 as int]
                        &&& r@[k].2@ == hits[perm[k]].2
                    },
        {
            let ghost k = it.index() as int;
            assert(m@ == rv[k]);
            assert(rv[k] == hits[perm[k]]);
            assert(0 <= perm[k] < hits.len());
            assert(hits[perm[k]].0 < n);
            let e = &self.items[m.index];
            assert(entries[m.index as int] == e@);
            let ghost before = r@;
            r.push((m.index, e, m.matched));
            assert(forall|j: int| 0 <= j < before.len() ==> r@[j] == before[j]);
        }
        assert(search_view(r@).len() == perm.len());
        assert(forall|k: int| 0 <= k < r@.len() ==> #[trigger] search_view(r@)[k] == (r@[k].0, r@[k].1@, r@[k].2@));
        r
    }

    /// Move an entry at `index` to the front of the history.
    pub fn promote(&mut self, index: usize)
        ensures
            final(self)@ == promoted(old(self)@, index as int),
            is_valid_history(final(self)@),
    {
        proof {
            use_type_invariant(&*self);
        }
        let ghost s = self@;
        if index > 0 && index < self.items.len() {
            let mut items: VecDeque<ClipboardEntry> = VecDeque::new();
            std::mem::swap(&mut items, &mut self.items);
            assert(entries_view(items@) == s);
            let removed_entry = items.remove(index);
            match removed_entry {
                Some(entry) => {
                    assert(entries_view(items@) =~= s.remove(index as int));
                    items.push_front(entry);
                    assert(entries_view(items@) =~= promoted(s, index as int));
                    proof {
                        lemma_remove_keeps_valid(s, index as int);
                        lemma_prepend_no_duplicates(s.remove(index as int), s[index as int]);
                    }
                },
                None => {},
            }
            self.items = items;
        }
    }

    /// Delete the entry at `index`; an index past the end deletes nothing.
    pub fn remove(&mut self, index: usize) -> (r: Option<ClipboardEntry>)
        ensures
            final(self)@ == removed(old(self)@, index as int),
            is_valid_history(final(self)@),
            index < old(self)@.len() ==> (r matches Some(e) && e@ == old(self)@[index as int]),
            index >= old(self)@.len() ==> r is None,
    {
        proof {
            use_type_invariant(&*self);
        }
        let ghost s = self@;
        let mut items: VecDeque<ClipboardEntry> = VecDeque::new();
        std::mem::swap(&mut items, &mut self.items);
        assert(entries_view(items@) == s);
        let r = items.remove(index);
        proof {
            if index < s.len() {
                lemma_remove_keeps_valid(s, index as int);
            }
        }
        assert(entries_view(items@) =~= removed(s, index as int));
        self.items = items;
        r
    }
}

/// An entry that is not yet in a list without duplicates can go in front
/// without making one.
proof fn lemma_prepend_no_duplicates(rest: Seq<EntryView>, e: EntryView)
    requires
        rest.no_duplicates(),
        !rest.contains(e),
    ensures
        (seq![e] + rest).no_duplicates(),
{
    let t = seq![e] + rest;
    assert forall|a: int, b: int| 0 <= a < t.len() && 0 <= b < t.len() && a != b implies t[a]
        != t[b] by {
        if a == 0 {
            assert(t[b] == rest[b - 1]);
        } else if b == 0 {
            assert(t[a] == rest[a - 1]);
        } else {
            assert(t[a] == rest[a - 1]);
            assert(t[b] == rest[b - 1]);
        }
    }
}

} // verus!
