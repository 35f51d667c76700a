//! The order in which a report lists its comparisons.

use vstd::prelude::*;

verus! {

/// What a report orders a comparison by: whether its difference is
/// significant, and its larger directional speedup as an order-preserving
/// integer key.
#[derive(Clone, Copy, Debug, PartialEq, Eq, Structural)]
pub struct Rank {
    /// Whether the difference of the means is significant.
    pub significant: bool,
    /// A key whose order is the order of the speedups.
    pub speedup: u64,
}

/// One number for the order of ranks: significant ranks above all others,
/// then larger speedups above smaller ones.
pub open spec fn rank_value(x: Rank) -> int {
    if x.significant {
        x.speedup + 0x1_0000_0000_0000_0000
    } else {
        x.speedup as int
    }
}

/// `order` lists the indices of `ranks`, each once, from the highest rank
/// down, and keeps indices of equal rank in their input order.
pub open spec fn ranked(ranks: Seq<Rank>, order: Seq<usize>) -> bool {
    &&& order.len() == ranks.len()
    &&& forall|i: int| 0 <= i < order.len() ==> order[i] < ranks.len()
    &&& order.no_duplicates()
    &&& forall|i: int, j: int|
        0 <= i < j < order.len() ==> rank_value(ranks[#[trigger] order[i] as int]) >= rank_value(
            ranks[#[trigger] order[j] as int],
        )
    &&& forall|i: int, j: int|
        0 <= i < j < order.len() && #[trigger] ranks[order[i] as int] == #[trigger] ranks[order[j] as int]
            ==> order[i] < order[j]
}

/// The first `k` indices, ranked.
spec fn ranked_prefix(ranks: Seq<Rank>, order: Seq<usize>, k: int) -> bool {
    &&& order.len() == k
    &&& forall|i: int| 0 <= i < order.len() ==> order[i] < k
    &&& order.no_duplicates()
    &&& forall|i: int, j: int|
        0 <= i < j < order.len() ==> rank_value(ranks[#[trigger] order[i] as int]) >= rank_value(
            ranks[#[trigger] order[j] as int],
        )
    &&& forall|i: int, j: int|
        0 <= i < j < order.len() && #[trigger] ranks[order[i] as int] == #[trigger] ranks[order[j] as int]
            ==> order[i] < order[j]
}

proof fn lemma_rank_value_injective(x: Rank, y: Rank)
    ensures
        rank_value(x) == rank_value(y) <==> x == y,
{
}

proof fn lemma_insert_ranked(ranks: Seq<Rank>, order: Seq<usize>, k: usize, p: int)
    requires
        0 <= k < ranks.len(),
        ranked_prefix(ranks, order, k as int),
        0 <= p <= order.len(),
        forall|q: int| 0 <= q < p ==> rank_value(ranks[#[trigger] order[q] as int]) >= rank_value(ranks[k as int]),
        p < order.len() ==> rank_value(ranks[order[p] as int]) < rank_value(ranks[k as int]),
    ensures
        ranked_prefix(ranks, order.insert(p, k), k + 1),
{
    let n = order.insert(p, k);
    order.insert_ensures(p, k);
    assert forall|i: int| 0 <= i < n.len() implies n[i] < k + 1 by {
        if i > p {
            assert(n[i] == order[i - 1]);
        } else if i < p {
            assert(n[i] == order[i]);
        }
    }
    assert forall|i: int, j: int| 0 <= i < n.len() && 0 <= j < n.len() && i != j implies n[i] != n[j] by {
        if i > p {
            assert(n[i] == order[i - 1]);
        } else if i < p {
            assert(n[i] == order[i]);
        }
        if j > p {
            assert(n[j] == order[j - 1]);
        } else if j < p {
            assert(n[j] == order[j]);
        }
    }
    assert forall|i: int, j: int| 0 <= i < j < n.len() implies rank_value(ranks[#[trigger] n[i] as int])
        >= rank_value(ranks[#[trigger] n[j] as int]) by {
        if i > p {
            assert(n[i] == order[i - 1]);
        } else if i < p {
            assert(n[i] == order[i]);
        }
        if j < p {
            assert(n[j] == order[j]);
        }
        if j > p {
            assert(n[j] == order[j - 1]);
            if p < order.len() && j - 1 > p {
                assert(rank_value(ranks[order[p] as int]) >= rank_value(ranks[order[j - 1] as int]));
            }
        }
    }
    assert forall|i: int, j: int|
        0 <= i < j < n.len() && #[trigger] ranks[n[i] as int] == #[trigger] ranks[n[j] as int]
            implies n[i] < n[j] by {
        if i > p {
            assert(n[i] == order[i - 1]);
        } else if i < p {
            assert(n[i] == order[i]);
        }
        if j < p {
            assert(n[j] == order[j]);
        }
        if j > p {
            assert(n[j] == order[j - 1]);
            if j - 1 > p {
                assert(rank_value(ranks[order[p] as int]) >= rank_value(ranks[order[j - 1] as int]));
            }
        }
    }
}

/// The indices of `ranks` in the order of a report: significant entries
/// first, larger speedups before smaller ones, and entries of equal rank in
/// their input order.
pub fn rank_order(ranks: &Vec<Rank>) -> (r: Vec<usize>)
    ensures
        ranked(ranks@, r@),
{
    let mut order: Vec<usize> = Vec::new();
    let mut k: usize = 0;
    while k < ranks.len()
        invariant
            k <= ranks.len(),
            ranked_prefix(ranks@, order@, k as int),
        decreases ranks.len() - k,
    {
        let rk = ranks[k];
        let mut p: usize = 0;
        while p < order.len() && !outranks(rk, ranks[order[p]])
            invariant
                p <= order.len(),
                k < ranks.len(),
                rk == ranks@[k as int],
                ranked_prefix(ranks@, order@, k as int),
                forall|q: int| 0 <= q < p ==> rank_value(ranks@[#[trigger] order@[q] as int]) >= rank_value(rk),
            decreases order.len() - p,
        {
            p = p + 1;
        }
        proof {
            lemma_insert_ranked(ranks@, order@, k, p as int);
        }
        order.insert(p, k);
        k = k + 1;
    }
    order
}

/// Does `x` rank strictly above `y`?
fn outranks(x: Rank, y: Rank) -> (r: bool)
    ensures
        r <==> rank_value(x) > rank_value(y),
{
    if x.significant != y.significant {
        x.significant
    } else {
        x.speedup > y.speedup
    }
}

/// In a ranked order, every significant entry comes before every entry that
/// is not, and among entries of equal significance the speedups never grow.
pub proof fn lemma_ranked_significant_first(ranks: Seq<Rank>, order: Seq<usize>, i: int, j: int)
    requires
        ranked(ranks, order),
        0 <= i < j < order.len(),
    ensures
        ranks[order[j] as int].significant ==> ranks[order[i] as int].significant,
        ranks[order[i] as int].significant == ranks[order[j] as int].significant
            ==> ranks[order[i] as int].speedup >= ranks[order[j] as int].speedup,
{
    assert(rank_value(ranks[order[i] as int]) >= rank_value(ranks[order[j] as int]));
}

} // verus!
