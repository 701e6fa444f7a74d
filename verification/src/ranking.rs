//! Ordering of search matches: best score first, ties kept in the order
//! in which the matches were found.
use vstd::prelude::*;

verus! {

/// One entry that matched a search: its index in the history, the match
/// score, and the positions of the matched characters.
pub struct ScoredMatch {
    pub index: usize,
    pub score: i64,
    pub matched: Vec<usize>,
}

impl View for ScoredMatch {
    type V = (usize, i64, Seq<usize>);

    open spec fn view(&self) -> (usize, i64, Seq<usize>) {
        (self.index, self.score, self.matched@)
    }
}

pub open spec fn matches_view(v: Seq<ScoredMatch>) -> Seq<(usize, i64, Seq<usize>)> {
    v.map_values(|m: ScoredMatch| m@)
}

/// The match at position `a` of `hits` is listed before the one at `b`:
/// it scores higher, or scores the same and was found first.
pub open spec fn ranks_before(hits: Seq<(usize, i64, Seq<usize>)>, a: int, b: int) -> bool {
    hits[a].1 > hits[b].1 || (hits[a].1 == hits[b].1 && a < b)
}

/// `perm` lists the positions of `hits` in ranked order: every position
/// in range, each one before every position that it ranks before.
pub open spec fn is_ranking(hits: Seq<(usize, i64, Seq<usize>)>, perm: Seq<int>) -> bool {
    &&& perm.len() == hits.len()
    &&& forall|k: int| 0 <= k < perm.len() ==> 0 <= #[trigger] perm[k] < hits.len()
    &&& forall|k: int, l: int|
        0 <= k < l < perm.len() ==> ranks_before(hits, #[trigger] perm[k], #[trigger] perm[l])
}

/// `out` holds the elements of `hits` in the ranked order `perm`.
pub open spec fn ranked_as(
    hits: Seq<(usize, i64, Seq<usize>)>,
    out: Seq<(usize, i64, Seq<usize>)>,
    perm: Seq<int>,
) -> bool {
    &&& is_ranking(hits, perm)
    &&& out.len() == perm.len()
    &&& forall|k: int| 0 <= k < out.len() ==> #[trigger] out[k] == hits[perm[k]]
}

/// Sort matches by score, best first; matches with equal scores keep their
/// order (a stable sort).
pub fn rank_matches(hits: Vec<ScoredMatch>) -> (out: Vec<ScoredMatch>)
    ensures
        exists|perm: Seq<int>| ranked_as(matches_view(hits@), matches_view(out@), perm),
{
    let ghost hs = hits@;
    let ghost h = matches_view(hits@);
    let mut out: Vec<ScoredMatch> = Vec::new();
    let ghost mut perm: Seq<int> = Seq::empty();
    for m in it: hits
        invariant
            it.seq() == hs,
            h == matches_view(hs),
            perm.len() == it.index(),
            out@.len() == perm.len(),
            forall|k: int| 0 <= k < perm.len() ==> 0 <= #[trigger] perm[k] < it.index(),
            forall|k: int| 0 <= k < out@.len() ==> #[trigger] out@[k]@ == h[perm[k]],
            forall|k: int, l: int|
                0 <= k < l < perm.len() ==> ranks_before(h, #[trigger] perm[k], #[trigger] perm[l]),
    {
        let ghost j: int = it.index() as int;
        assert(m@ == h[j]);
        let mut pos: usize = 0;
        while pos < out.len() && out[pos].score >= m.score
            invariant
                pos <= out@.len(),
                forall|k: int| 0 <= k < pos ==> #[trigger] out@[k].score >= m.score,
            decreases out@.len() - pos,
        {
            pos = pos + 1;
        }
        let ghost old_out = out@;
        let ghost old_perm = perm;
        out.insert(pos, m);
        proof {
            perm = old_perm.insert(pos as int, j);
            assert forall|k: int| 0 <= k < perm.len() implies 0 <= #[trigger] perm[k] < j + 1 by {
                if k < pos {
                    assert(perm[k] == old_perm[k]);
                } else if k > pos {
                    assert(perm[k] == old_perm[k - 1]);
                }
            }
            assert forall|k: int| 0 <= k < out@.len() implies #[trigger] out@[k]@ == h[perm[k]] by {
                if k < pos {
                    assert(out@[k] == old_out[k]);
                    assert(perm[k] == old_perm[k]);
                } else if k > pos {
                    assert(out@[k] == old_out[k - 1]);
                    assert(perm[k] == old_perm[k - 1]);
                }
            }
            assert forall|k: int, l: int| 0 <= k < l < perm.len() implies ranks_before(
                h,
                #[trigger] perm[k],
                #[trigger] perm[l],
            ) by {
                if l < pos {
                    assert(perm[k] == old_perm[k] && perm[l] == old_perm[l]);
                } else if l == pos {
                    assert(perm[k] == old_perm[k]);
                    assert(old_out[k]@ == h[old_perm[k]]);
                } else if k > pos {
                    assert(perm[k] == old_perm[k - 1] && perm[l] == old_perm[l - 1]);
                } else if k == pos {
                    assert(perm[l] == old_perm[l - 1]);
                    assert(old_out[l - 1]@ == h[old_perm[l - 1]]);
                    assert(old_out[pos as int]@ == h[old_perm[pos as int]]);
                    if l - 1 > pos {
                        assert(ranks_before(h, old_perm[pos as int], old_perm[l - 1]));
                    }
                } else {
                    assert(perm[k] == old_perm[k] && perm[l] == old_perm[l - 1]);
                }
            }
        }
    }
    assert(ranked_as(h, matches_view(out@), perm));
    out
}

} // verus!
