//! The statistical half of the pipeline: sorting a sample set,
//! trimming outliers and taking the integer mean, together with the
//! mathematical model that the public contracts are stated over.
use vstd::prelude::*;
use vstd::relations::{sorted_by, total_ordering};
use vstd::seq_lib::lemma_multiset_commutative;
use vstd::seq_lib::lemma_sorted_unique;

verus! {

/// The order in which samples are ranked: plain `<=` on cycle counts.
pub open spec fn cycle_le() -> spec_fn(u64, u64) -> bool {
    |x: u64, y: u64| x <= y
}

/// The sample set sorted ascending, as a mathematical value.
pub open spec fn sorted_of(s: Seq<u64>) -> Seq<u64> {
    s.sort_by(cycle_le())
}

/// One step of totalling: a running total plus one sample.
pub open spec fn add_sample() -> spec_fn(int, u64) -> int {
    (|total: int, x: u64| total + x)
}

/// Total of a sequence of samples.
pub open spec fn sum_of(s: Seq<u64>) -> int {
    s.fold_left(0int, add_sample())
}

/// Number of timed trials performed for the given trim counts and
/// sample count.
pub open spec fn trial_count(low: int, samples: int, high: int) -> int {
    low + samples + high
}

/// The retained entries: the sorted sample set with the `low`
/// smallest entries and everything past the next `samples` entries
/// (the `high` largest) removed.
pub open spec fn trimmed_window(s: Seq<u64>, low: int, samples: int) -> Seq<u64> {
    sorted_of(s).subrange(low, low + samples)
}

/// Divisor of the mean: the retained count, clamped to 1 so that an
/// empty window yields 0 rather than a division by zero.
pub open spec fn mean_divisor(samples: int) -> int {
    if samples == 0 {
        1
    } else {
        samples
    }
}

/// Integer mean of the retained entries.
pub open spec fn trimmed_mean(s: Seq<u64>, low: int, samples: int) -> int {
    sum_of(trimmed_window(s, low, samples)) / mean_divisor(samples)
}

/// Classification of a sample set: inside a virtual machine exactly
/// when the mean latency exceeds the threshold.
pub open spec fn classified(s: Seq<u64>, low: int, samples: int, threshold: u64) -> bool {
    trimmed_mean(s, low, samples) > threshold
}

/// `<=` on cycle counts is a total order.
pub proof fn lemma_cycle_le_total_ordering()
    ensures
        total_ordering(cycle_le()),
{
}

/// Extending a window on its right adds that entry to the total.
proof fn lemma_sum_extend(s: Seq<u64>, a: int, i: int)
    requires
        0 <= a <= i < s.len(),
    ensures
        sum_of(s.subrange(a, i + 1)) == sum_of(s.subrange(a, i)) + s[i],
{
    let t = s.subrange(a, i + 1);
    assert(t.drop_last() =~= s.subrange(a, i));
    assert(t.last() == s[i]);
}

/// Inserting an entry anywhere in a sequence inserts it into the
/// sequence's multiset.
proof fn lemma_insert_to_multiset(s: Seq<u64>, i: int, x: u64)
    requires
        0 <= i <= s.len(),
    ensures
        s.insert(i, x).to_multiset() == s.to_multiset().insert(x),
{
    broadcast use vstd::seq_lib::group_to_multiset_ensures;
    broadcast use vstd::multiset::group_multiset_axioms;

    let pre = s.subrange(0, i);
    let post = s.subrange(i, s.len() as int);
    assert(s.insert(i, x) =~= pre.push(x) + post);
    lemma_multiset_commutative(pre.push(x), post);
    assert(s =~= pre + post);
    lemma_multiset_commutative(pre, post);
    assert(pre.push(x).to_multiset() =~= pre.to_multiset().insert(x));
    assert(pre.to_multiset().insert(x).add(post.to_multiset()) =~= pre.to_multiset().add(
        post.to_multiset(),
    ).insert(x));
}

/// Sorts a sample set ascending by insertion into a fresh vector.
fn sort_cycles(cycles: Vec<u64>) -> (r: Vec<u64>)
    ensures
        r@ == sorted_of(cycles@),
{
    let mut out: Vec<u64> = Vec::new();
    let mut i: usize = 0;
    proof {
        assert(cycles@.subrange(0, 0) =~= out@);
    }
    while i < cycles.len()
        invariant
            i <= cycles@.len(),
            out@.len() == i,
            sorted_by(out@, cycle_le()),
            out@.to_multiset() == cycles@.subrange(0, i as int).to_multiset(),
        decreases cycles@.len() - i,
    {
        let x = cycles[i];
        let mut p: usize = 0;
        while p < out.len() && out[p] <= x
            invariant
                p <= out@.len(),
                forall|k: int| 0 <= k < p ==> out@[k] <= x,
            decreases out@.len() - p,
        {
            p += 1;
        }
        let ghost prev = out@;
        proof {
            broadcast use vstd::seq_lib::group_to_multiset_ensures;

            lemma_insert_to_multiset(prev, p as int, x);
            assert(cycles@.subrange(0, i as int + 1).drop_last() =~= cycles@.subrange(0, i as int));
            assert(cycles@.subrange(0, i as int + 1) =~= cycles@.subrange(0, i as int).push(
                cycles@[i as int],
            ));
        }
        out.insert(p, x);
        proof {
            prev.insert_ensures(p as int, x);
            assert forall|a: int, b: int| 0 <= a < b < out@.len() implies cycle_le()(
                out@[a],
                out@[b],
            ) by {
                if a < p && b > p {
                    assert(cycle_le()(prev[a], prev[b - 1]));
                }
                if a == p && b > p {
                    assert(cycle_le()(prev[p as int], prev[b - 1]));
                }
            }
        }
        i += 1;
    }
    proof {
        assert(cycles@.subrange(0, cycles@.len() as int) =~= cycles@);
        lemma_cycle_le_total_ordering();
        cycles@.lemma_sort_by_ensures(cycle_le());
        lemma_sorted_unique(out@, sorted_of(cycles@), cycle_le());
    }
    out
}

/// Mean latency after trimming: sorts the samples ascending, drops
/// the `low` smallest and `high` largest, and returns the integer
/// mean of the remaining `samples` entries; when `samples` is 0 the
/// divisor is clamped to 1 and the result is 0.
pub fn trimmed_average(cycles: Vec<u64>, low: usize, samples: usize, high: usize) -> (avg: u64)
    requires
        low + samples + high <= usize::MAX,
        cycles@.len() == low + samples + high,
    ensures
        avg == trimmed_mean(cycles@, low as int, samples as int),
{
    let ghost orig = cycles@;
    let sorted = sort_cycles(cycles);
    proof {
        broadcast use vstd::seq_lib::group_to_multiset_ensures;

        orig.lemma_sort_by_ensures(cycle_le());
        assert(sorted@.to_multiset() =~= orig.to_multiset());
        assert(sorted@.to_multiset().len() == sorted@.len());
        assert(orig.to_multiset().len() == orig.len());
    }
    let end = low + samples;
    let mut i: usize = low;
    let mut total: u128 = 0;
    proof {
        assert(sorted@.subrange(low as int, low as int) =~= Seq::<u64>::empty());
    }
    while i < end
        invariant
            low <= i <= end,
            end == low + samples,
            end <= sorted@.len(),
            sorted@ == sorted_of(orig),
            total == sum_of(sorted@.subrange(low as int, i as int)),
            total <= (i - low) as int * (u64::MAX as int),
        decreases end - i,
    {
        let x = sorted[i];
        proof {
            lemma_sum_extend(sorted@, low as int, i as int);
        }
        total = total + (x as u128);
        i += 1;
    }
    let divisor: u64 = if samples == 0 {
        1
    } else {
        samples as u64
    };
    let quotient: u128 = total / (divisor as u128);
    proof {
        if samples > 0 {
            vstd::arithmetic::div_mod::lemma_div_is_ordered(
                total as int,
                samples as int * (u64::MAX as int),
                samples as int,
            );
            vstd::arithmetic::div_mod::lemma_div_by_multiple(u64::MAX as int, samples as int);
        }
    }
    quotient as u64
}

/// With a positive sample count, the mean is taken over exactly
/// `samples` entries, drawn from the ascending sorting of the whole
/// trial set after its `low` smallest and `high` largest entries are
/// removed.
pub proof fn lemma_mean_over_exact_sample_count(s: Seq<u64>, low: int, samples: int, high: int)
    requires
        0 <= low,
        0 < samples,
        0 <= high,
        s.len() == trial_count(low, samples, high),
    ensures
        trimmed_window(s, low, samples).len() == samples,
        trimmed_window(s, low, samples) == sorted_of(s).subrange(low, low + samples),
        sorted_by(sorted_of(s), cycle_le()),
        sorted_of(s).to_multiset() == s.to_multiset(),
        sorted_of(s).len() == s.len(),
        trimmed_mean(s, low, samples) == sum_of(trimmed_window(s, low, samples)) / samples,
{
    broadcast use vstd::seq_lib::group_to_multiset_ensures;

    s.lemma_sort_by_ensures(cycle_le());
    assert(sorted_of(s).to_multiset() =~= s.to_multiset());
    assert(sorted_of(s).to_multiset().len() == sorted_of(s).len());
    assert(s.to_multiset().len() == s.len());
}

/// With no retained samples the mean is 0 for every sample set: the
/// window is empty and the clamped divisor keeps the division
/// defined.
pub proof fn lemma_zero_samples_mean_zero(s: Seq<u64>, low: int, high: int)
    requires
        0 <= low,
        0 <= high,
        s.len() == trial_count(low, 0, high),
    ensures
        trimmed_mean(s, low, 0) == 0,
{
    broadcast use vstd::seq_lib::group_to_multiset_ensures;

    s.lemma_sort_by_ensures(cycle_le());
    assert(sorted_of(s).to_multiset() =~= s.to_multiset());
    assert(sorted_of(s).to_multiset().len() == sorted_of(s).len());
    assert(s.to_multiset().len() == s.len());
    assert(trimmed_window(s, low, 0) =~= Seq::<u64>::empty());
}

/// Raising the threshold can only turn a positive classification
/// negative, never the reverse, for a fixed sample set.
pub proof fn lemma_threshold_monotone(s: Seq<u64>, low: int, samples: int, t1: u64, t2: u64)
    requires
        t1 <= t2,
    ensures
        classified(s, low, samples, t2) ==> classified(s, low, samples, t1),
{
}

/// With nothing trimmed, the mean is the plain arithmetic mean of all
/// raw samples in their original order: sorting permutes the entries
/// and a total is invariant under permutation.
pub proof fn lemma_untrimmed_is_plain_mean(s: Seq<u64>, samples: int)
    requires
        0 < samples,
        s.len() == samples,
    ensures
        trimmed_mean(s, 0, samples) == sum_of(s) / samples,
{
    broadcast use vstd::seq_lib::group_to_multiset_ensures;

    s.lemma_sort_by_ensures(cycle_le());
    assert(sorted_of(s).to_multiset() =~= s.to_multiset());
    assert(sorted_of(s).to_multiset().len() == sorted_of(s).len());
    assert(s.to_multiset().len() == s.len());
    assert(trimmed_window(s, 0, samples) =~= sorted_of(s));
    assert(vstd::seq_lib::commutative_foldl(add_sample()));
    vstd::seq_lib::lemma_fold_left_permutation(sorted_of(s), s, add_sample(), 0int);
}

} // verus!
