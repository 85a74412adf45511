//! Ordering of query hits: descending score, ties broken by ascending id, and
//! truncation to the requested number of results.
use vstd::prelude::*;
use vstd::seq_lib::{lemma_multiset_commutative, to_multiset_build, to_multiset_contains, to_multiset_insert};

verus! {

/// One query hit: a document id and the IEEE-754 bit pattern of its relevance
/// score. Hits are ranked by that bit pattern, which for non-negative scores
/// orders exactly as the scores do.
#[derive(Debug, Clone, Copy, PartialEq, Eq, Structural)]
pub struct IdScore {
    pub id: i64,
    pub score_bits: u32,
}

/// `a` may stand before `b` in a result list: a higher score, or the same
/// score and an id no larger.
pub open spec fn ranks_before(a: IdScore, b: IdScore) -> bool {
    a.score_bits > b.score_bits || (a.score_bits == b.score_bits && a.id <= b.id)
}

pub open spec fn sorted_by_rank(s: Seq<IdScore>) -> bool {
    forall|i: int, j: int| 0 <= i < j < s.len() ==> ranks_before(#[trigger] s[i], #[trigger] s[j])
}

/// The smaller of the number of hits and the number asked for.
pub open spec fn kept_len(n_hits: int, top_n: int) -> int {
    if n_hits < top_n {
        n_hits
    } else {
        top_n
    }
}

/// The ranked result for `hits` truncated to `top_n`: exactly as many entries
/// as `kept_len` says, in rank order, drawn from the hits, and ranking before
/// every hit that was left out.
pub open spec fn is_top_ranked(r: Seq<IdScore>, hits: Seq<IdScore>, top_n: int) -> bool {
    &&& r.len() == kept_len(hits.len() as int, top_n)
    &&& sorted_by_rank(r)
    &&& r.to_multiset().subset_of(hits.to_multiset())
    &&& forall|x: IdScore|
        #![trigger hits.to_multiset().count(x)]
        hits.to_multiset().count(x) > r.to_multiset().count(x) ==> forall|i: int|
            0 <= i < r.len() ==> ranks_before(#[trigger] r[i], x)
}

fn ranks_before_exec(a: &IdScore, b: &IdScore) -> (r: bool)
    ensures
        r == ranks_before(*a, *b),
{
    a.score_bits > b.score_bits || (a.score_bits == b.score_bits && a.id <= b.id)
}

fn sort_by_rank(hits: &Vec<IdScore>) -> (r: Vec<IdScore>)
    ensures
        sorted_by_rank(r@),
        r@.to_multiset() == hits@.to_multiset(),
{
    let mut out: Vec<IdScore> = Vec::new();
    let mut i: usize = 0;
    assert(out@ == hits@.subrange(0, 0));
    while i < hits.len()
        invariant
            0 <= i <= hits.len(),
            sorted_by_rank(out@),
            out@.to_multiset() == hits@.subrange(0, i as int).to_multiset(),
        decreases hits.len() - i,
    {
        let h = hits[i];
        let mut k: usize = 0;
        while k < out.len() && ranks_before_exec(&out[k], &h)
            invariant
                0 <= k <= out.len(),
                forall|a: int| 0 <= a < k ==> ranks_before(#[trigger] out@[a], h),
            decreases out.len() - k,
        {
            k += 1;
        }
        let ghost prev = out@;
        out.insert(k, h);
        proof {
            to_multiset_insert(prev, k as int, h);
            assert(hits@.subrange(0, i + 1) == hits@.subrange(0, i as int).push(h));
            to_multiset_build(hits@.subrange(0, i as int), h);
            assert forall|a: int, b: int| 0 <= a < b < out@.len() implies ranks_before(
                #[trigger] out@[a],
                #[trigger] out@[b],
            ) by {
                if b < k {
                } else if a < k && b == k {
                } else if a < k {
                    assert(out@[b] == prev[b - 1]);
                } else if a == k {
                    assert(!ranks_before(prev[k as int], h));
                    assert(ranks_before(h, prev[k as int]));
                    if b - 1 > k {
                        assert(ranks_before(prev[k as int], prev[b - 1]));
                    }
                } else {
                    assert(out@[a] == prev[a - 1]);
                    assert(out@[b] == prev[b - 1]);
                }
            }
        }
        i += 1;
    }
    assert(hits@.subrange(0, hits.len() as int) == hits@);
    out
}

/// Orders `hits` by descending score, ties by ascending id, and keeps the first
/// `top_n` of them; when there is room for all, every hit is kept.
pub fn rank_hits(hits: &Vec<IdScore>, top_n: usize) -> (r: Vec<IdScore>)
    ensures
        is_top_ranked(r@, hits@, top_n as int),
        hits@.len() <= top_n ==> r@.to_multiset() == hits@.to_multiset(),
{
    let sorted = sort_by_rank(hits);
    let n: usize = if sorted.len() < top_n {
        sorted.len()
    } else {
        top_n
    };
    let mut out: Vec<IdScore> = Vec::new();
    let mut i: usize = 0;
    while i < n
        invariant
            0 <= i <= n <= sorted.len(),
            out@ == sorted@.subrange(0, i as int),
        decreases n - i,
    {
        out.push(sorted[i]);
        i += 1;
    }
    proof {
        broadcast use vstd::multiset::group_multiset_axioms;

        let rest = sorted@.subrange(n as int, sorted@.len() as int);
        assert(out@ + rest == sorted@);
        lemma_multiset_commutative(out@, rest);
        assert(out@.to_multiset().subset_of(hits@.to_multiset())) by {
            broadcast use vstd::multiset::group_multiset_axioms;
        }
        assert forall|x: IdScore|
            #![trigger hits@.to_multiset().count(x)]
            hits@.to_multiset().count(x) > out@.to_multiset().count(x) implies forall|a: int|
                0 <= a < out@.len() ==> ranks_before(#[trigger] out@[a], x) by {
            to_multiset_contains(rest, x);
            let j = choose|j: int| 0 <= j < rest.len() && rest[j] == x;
            assert forall|a: int| 0 <= a < out@.len() implies ranks_before(#[trigger] out@[a], x) by {
                assert(sorted@[n + j] == x);
                assert(out@[a] == sorted@[a]);
            }
        }
        assert forall|a: int, b: int| 0 <= a < b < out@.len() implies ranks_before(
            #[trigger] out@[a],
            #[trigger] out@[b],
        ) by {
            assert(out@[a] == sorted@[a]);
            assert(out@[b] == sorted@[b]);
        }
        assert(out@.len() == kept_len(hits@.len() as int, top_n as int)) by {
            vstd::seq_lib::to_multiset_len(sorted@);
            vstd::seq_lib::to_multiset_len(hits@);
        }
        if hits@.len() <= top_n {
            vstd::seq_lib::to_multiset_len(sorted@);
            vstd::seq_lib::to_multiset_len(hits@);
            assert(n == sorted@.len());
            assert(out@ =~= sorted@);
        }
    }
    out
}

} // verus!
