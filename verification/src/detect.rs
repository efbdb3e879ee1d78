//! The measuring half of the pipeline: timed trials of the CPU
//! identification query, and the classification of their mean latency
//! against a threshold.
//!
//! A hypervisor intercepts and emulates the identification query, so
//! its latency is the detection signal. The two hardware reads — the
//! cycle counter and the query itself — are the only trusted calls;
//! everything done with the measured values is verified.
use crate::stats::classified;
use crate::stats::lemma_zero_samples_mean_zero;
use crate::stats::trial_count;
use crate::stats::trimmed_average;
use crate::stats::trimmed_mean;
use vstd::prelude::*;

verus! {

/// Default number of smallest samples trimmed as outliers;
/// empirically tuned, not derived.
pub const DEFAULT_LOW: usize = 5;

/// Default number of retained samples; empirically tuned, not
/// derived.
pub const DEFAULT_SAMPLES: usize = 100;

/// Default number of largest samples trimmed as outliers;
/// empirically tuned, not derived.
pub const DEFAULT_HIGH: usize = 5;

/// Default latency threshold, in counter units, above which the
/// process is taken to run inside a virtual machine; empirically
/// tuned, not derived.
pub const DEFAULT_THRESHOLD: u64 = 1000;

/// Clock of the `quanta` crate, kept opaque: the library only reads
/// its raw counter.
#[verifier::external_type_specification]
#[verifier::external_body]
pub struct ExClock(quanta::Clock);

/// Relies on quanta::Clock::new: builds a clock whose fastest source
/// is the processor's timestamp counter where the hardware offers a
/// usable one, and the operating system's monotonic clock otherwise.
#[verifier::external_body]
fn new_clock() -> quanta::Clock {
    quanta::Clock::new()
}

/// Relies on quanta::Clock::raw: one raw reading of the clock's
/// fastest source. The value depends on the machine and the moment,
/// and is not even promised to be monotonic, so nothing is stated of
/// it.
#[verifier::external_body]
fn read_counter(clock: &quanta::Clock) -> u64 {
    clock.raw()
}

/// Relies on raw_cpuid::native_cpuid::cpuid_count: executes the CPU
/// identification query for the given leaf and subleaf and hands back
/// the four result registers. Their values depend on the machine, so
/// nothing is stated of them.
#[verifier::external_body]
fn identification_query(leaf: u32, subleaf: u32) -> (u32, u32, u32, u32) {
    let r = raw_cpuid::native_cpuid::cpuid_count(leaf, subleaf);
    (r.eax, r.ebx, r.ecx, r.edx)
}

/// Relies on std::hint::black_box: an identity function that the
/// compiler must treat as opaque, so a value passed through it counts
/// as used and the instruction that produced it cannot be removed as
/// dead code.
#[verifier::external_body]
fn observe(value: u32) -> (r: u32)
    ensures
        r == value,
{
    std::hint::black_box(value)
}

/// Average latency, in counter units, of the CPU identification
/// query: performs `low + samples + high` timed trials, each one a
/// counter read, the query for leaf 0, and a second counter read,
/// then sorts the measured durations, drops the `low` smallest and
/// `high` largest, and returns the integer mean of the remaining
/// `samples` (0 when `samples` is 0).
pub fn cpuid_cycle_count_avg(low: usize, samples: usize, high: usize) -> (avg: u64)
    requires
        low + samples + high <= usize::MAX,
    ensures
        exists|cycles: Seq<u64>|
            cycles.len() == trial_count(low as int, samples as int, high as int) && avg
                == trimmed_mean(cycles, low as int, samples as int),
        samples == 0 ==> avg == 0,
{
    let clock = new_clock();
    let trials = low + samples + high;
    let mut cycles: Vec<u64> = Vec::new();
    let mut t: usize = 0;
    while t < trials
        invariant
            t <= trials,
            cycles@.len() == t,
        decreases trials - t,
    {
        let started = read_counter(&clock);
        let (eax, _ebx, _ecx, _edx) = identification_query(0, 0);
        let stopped = read_counter(&clock);
        let _ = observe(eax);
        // the counter read is not serializing, so a reordered or
        // non-monotonic pair of readings is recorded as 0 rather than
        // wrapping around
        let elapsed = if stopped >= started {
            stopped - started
        } else {
            0
        };
        cycles.push(elapsed);
        t += 1;
    }
    let ghost sampled = cycles@;
    let avg = trimmed_average(cycles, low, samples, high);
    proof {
        if samples == 0 {
            lemma_zero_samples_mean_zero(sampled, low as int, high as int);
        }
        assert(sampled.len() == trial_count(low as int, samples as int, high as int) && avg
            == trimmed_mean(sampled, low as int, samples as int));
    }
    avg
}

/// Classification with caller-chosen trim counts, sample count and
/// threshold: measures as `cpuid_cycle_count_avg` does and returns
/// true exactly when the mean latency exceeds `threshold`.
pub fn inside_vm_custom(low: usize, samples: usize, high: usize, threshold: u64) -> (inside: bool)
    requires
        low + samples + high <= usize::MAX,
    ensures
        exists|cycles: Seq<u64>|
            cycles.len() == trial_count(low as int, samples as int, high as int) && inside
                == classified(cycles, low as int, samples as int, threshold),
        samples == 0 ==> inside == false,
{
    let avg = cpuid_cycle_count_avg(low, samples, high);
    let inside = avg > threshold;
    proof {
        let w = choose|cycles: Seq<u64>|
            cycles.len() == trial_count(low as int, samples as int, high as int) && avg
                == trimmed_mean(cycles, low as int, samples as int);
        assert(w.len() == trial_count(low as int, samples as int, high as int) && inside
            == classified(w, low as int, samples as int, threshold));
    }
    inside
}

/// Classification under the default policy: trims the 5 smallest and
/// 5 largest of 110 trials, averages the 100 retained samples, and
/// compares against a threshold of 1000 counter units.
pub fn inside_vm() -> (inside: bool)
    ensures
        exists|cycles: Seq<u64>|
            cycles.len() == trial_count(
                DEFAULT_LOW as int,
                DEFAULT_SAMPLES as int,
                DEFAULT_HIGH as int,
            ) && inside == classified(
                cycles,
                DEFAULT_LOW as int,
                DEFAULT_SAMPLES as int,
                DEFAULT_THRESHOLD,
            ),
{
    inside_vm_custom(DEFAULT_LOW, DEFAULT_SAMPLES, DEFAULT_HIGH, DEFAULT_THRESHOLD)
}

/// The parameterless classification uses exactly the documented
/// defaults: for every sample set it agrees with the custom
/// classification at 5 trimmed low, 100 retained samples and a
/// threshold of 1000, over 110 trials.
pub proof fn lemma_default_policy_matches_custom(s: Seq<u64>)
    ensures
        classified(s, DEFAULT_LOW as int, DEFAULT_SAMPLES as int, DEFAULT_THRESHOLD) == classified(
            s,
            5,
            100,
            1000,
        ),
        trial_count(DEFAULT_LOW as int, DEFAULT_SAMPLES as int, DEFAULT_HIGH as int) == 110,
{
}

} // verus!
