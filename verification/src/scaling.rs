//! Scaling: the pure mapping from raw fitness values to the non-negative
//! selection weights that observer-role selection draws against.

use vstd::prelude::*;

verus! {

/// Which scaling the observers use.
#[derive(Clone, Copy, Debug, PartialEq, Eq, Structural)]
pub enum Scaling {
    /// Weight proportionate to the fitness value itself, with non-positive
    /// fitness clamped to weight zero.
    Proportionate,
    /// Weight by rank: one more than the count of strictly worse members,
    /// so ties share a rank and even the worst member keeps a chance.
    Rank,
    /// Every member weighs the same, whatever its fitness.
    Uniform,
}

/// How many of the first `k` fitness values lie strictly below `bound`.
pub open spec fn count_below(fitnesses: Seq<i64>, bound: i64, k: int) -> int
    decreases k,
{
    if k <= 0 {
        0
    } else {
        count_below(fitnesses, bound, k - 1) + (if fitnesses[k - 1] < bound {
            1int
        } else {
            0int
        })
    }
}

/// The weight one scaling gives the fitness at position `i`.
pub open spec fn weight_of(scale: Scaling, fitnesses: Seq<i64>, i: int) -> int {
    match scale {
        Scaling::Proportionate => if fitnesses[i] > 0 {
            fitnesses[i] as int
        } else {
            0
        },
        Scaling::Rank => 1 + count_below(fitnesses, fitnesses[i], fitnesses.len() as int),
        Scaling::Uniform => 1,
    }
}

/// The rank weight of position `i`: one more than the count of strictly
/// worse fitness values anywhere in the table.
fn rank_entry(fitnesses: &Vec<i64>, i: usize) -> (r: u64)
    requires
        i < fitnesses@.len(),
    ensures
        r as int == 1 + count_below(fitnesses@, fitnesses@[i as int], fitnesses@.len() as int),
{
    let n = fitnesses.len();
    let bound = fitnesses[i];
    let mut c: u64 = 0;
    let mut j: usize = 0;
    while j < n
        invariant
            j <= n,
            n == fitnesses@.len(),
            i < n,
            bound == fitnesses@[i as int],
            c as int == count_below(fitnesses@, bound, j as int),
            c <= j,
            j > i ==> c as int <= j - 1,
        decreases n - j,
    {
        if fitnesses[j] < bound {
            c = c + 1;
        }
        j = j + 1;
    }
    1 + c
}

/// The whole weight table a scaling produces.
pub open spec fn weight_seq(scale: Scaling, fitnesses: Seq<i64>) -> Seq<u64> {
    Seq::new(fitnesses.len(), |i: int| weight_of(scale, fitnesses, i) as u64)
}

/// Builds the selection-weight table for a snapshot of fitness values.
pub fn scale_weights(scale: &Scaling, fitnesses: &Vec<i64>) -> (w: Vec<u64>)
    ensures
        w@ == weight_seq(*scale, fitnesses@),
{
    let mut w: Vec<u64> = Vec::new();
    let n = fitnesses.len();
    let mut i: usize = 0;
    while i < n
        invariant
            i <= n,
            n == fitnesses@.len(),
            w@.len() == i,
            forall|j: int| 0 <= j < i ==> w@[j] == weight_of(*scale, fitnesses@, j) as u64,
        decreases n - i,
    {
        let f = fitnesses[i];
        let entry: u64 = match scale {
            Scaling::Proportionate => if f > 0 {
                f as u64
            } else {
                0
            },
            Scaling::Rank => rank_entry(fitnesses, i),
            Scaling::Uniform => 1,
        };
        w.push(entry);
        i = i + 1;
    }
    proof {
        assert(w@ =~= weight_seq(*scale, fitnesses@));
    }
    w
}

/// The sum of the first `k` weights.
pub open spec fn prefix_weight(s: Seq<u64>, k: int) -> int
    decreases k,
{
    if k <= 0 {
        0
    } else {
        prefix_weight(s, k - 1) + s[k - 1]
    }
}

/// The sum of the whole weight table.
pub open spec fn total_weight(s: Seq<u64>) -> int {
    prefix_weight(s, s.len() as int)
}

/// A prefix sum of weights is non-negative and bounded by the largest value
/// a table of that many entries can sum to.
pub proof fn lemma_prefix_weight_bounds(s: Seq<u64>, k: int)
    requires
        0 <= k <= s.len(),
    ensures
        0 <= prefix_weight(s, k),
        prefix_weight(s, k) <= k * (u64::MAX as int),
    decreases k,
{
    if k > 0 {
        lemma_prefix_weight_bounds(s, k - 1);
    }
}

/// Cumulative-sum selection: the index whose weight interval holds `draw`.
/// Entries with weight zero own an empty interval, so they are never picked.
pub fn pick_index(weights: &Vec<u64>, draw: u128) -> (i: usize)
    requires
        (draw as int) < total_weight(weights@),
    ensures
        i < weights@.len(),
        prefix_weight(weights@, i as int) <= draw as int,
        (draw as int) < prefix_weight(weights@, i as int + 1),
        weights@[i as int] > 0,
{
    let n = weights.len();
    let mut acc: u128 = 0;
    let mut i: usize = 0;
    while i < n
        invariant_except_break
            i <= n,
            n == weights@.len(),
            acc as int == prefix_weight(weights@, i as int),
            acc as int <= draw as int,
            (draw as int) < total_weight(weights@),
        ensures
            i < n,
            n == weights@.len(),
            prefix_weight(weights@, i as int) <= draw as int,
            (draw as int) < prefix_weight(weights@, i as int + 1),
        decreases n - i,
    {
        proof {
            lemma_prefix_weight_bounds(weights@, i as int);
            assert((i as int) * (u64::MAX as int) <= 0xffff_ffff_ffff_ffff_0000_0000_0000_0000int)
                by (nonlinear_arith)
                requires
                    0 <= i as int <= 0xffff_ffff_ffff_ffffint,
            ;
        }
        let step = weights[i];
        let grown = acc + step as u128;
        if draw < grown {
            break;
        }
        acc = grown;
        i = i + 1;
    }
    proof {
        assert(weights@[i as int] > 0);
    }
    i
}

} // verus!
