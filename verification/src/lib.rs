//! Heuristic detection of execution inside a virtual machine.
//!
//! The CPU identification instruction is intercepted and emulated by
//! hypervisors, which makes it measurably slower than on bare metal.
//! This library times repeated identification queries with the cycle
//! counter, trims outliers, averages the remaining samples and compares
//! the average against a threshold.
use vstd::prelude::*;

mod detect;
mod stats;

verus! {

pub use crate::detect::DEFAULT_HIGH;
pub use crate::detect::DEFAULT_LOW;
pub use crate::detect::DEFAULT_SAMPLES;
pub use crate::detect::DEFAULT_THRESHOLD;
pub use crate::detect::cpuid_cycle_count_avg;
pub use crate::detect::inside_vm;
pub use crate::detect::inside_vm_custom;
pub use crate::detect::lemma_default_policy_matches_custom;
pub use crate::stats::add_sample;
pub use crate::stats::classified;
pub use crate::stats::cycle_le;
pub use crate::stats::lemma_cycle_le_total_ordering;
pub use crate::stats::lemma_mean_over_exact_sample_count;
pub use crate::stats::lemma_threshold_monotone;
pub use crate::stats::lemma_untrimmed_is_plain_mean;
pub use crate::stats::lemma_zero_samples_mean_zero;
pub use crate::stats::mean_divisor;
pub use crate::stats::sorted_of;
pub use crate::stats::sum_of;
pub use crate::stats::trial_count;
pub use crate::stats::trimmed_average;
pub use crate::stats::trimmed_mean;
pub use crate::stats::trimmed_window;

} // verus!
