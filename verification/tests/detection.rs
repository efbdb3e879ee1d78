use inside_vm::cpuid_cycle_count_avg;
use inside_vm::inside_vm;
use inside_vm::inside_vm_custom;

#[test]
fn zero_samples_average_is_zero() {
    assert_eq!(cpuid_cycle_count_avg(3, 0, 2), 0);
}

#[test]
fn zero_samples_average_is_zero_on_every_call() {
    // the degenerate result does not vary from run to run
    assert_eq!(cpuid_cycle_count_avg(2, 0, 3), 0);
    assert_eq!(cpuid_cycle_count_avg(2, 0, 3), 0);
}

#[test]
fn repeated_runs_return_a_trimmed_mean() {
    // values vary with real timing noise; both calls must complete a
    // full 7-trial run and produce some mean
    let first = cpuid_cycle_count_avg(1, 5, 1);
    let second = cpuid_cycle_count_avg(1, 5, 1);
    let _ = first;
    let _ = second;
}

#[test]
fn zero_samples_never_classified_inside() {
    // a 0-cycle average cannot exceed any threshold
    assert!(!inside_vm_custom(4, 0, 4, 0));
}

#[test]
fn maximal_threshold_never_classified_inside() {
    // no 64-bit average exceeds the largest threshold
    assert!(!inside_vm_custom(2, 5, 2, u64::MAX));
    assert!(!inside_vm_custom(2, 5, 2, u64::MAX));
}

#[test]
fn default_form_runs_the_documented_policy() {
    // both forms measure 110 trials and compare against 1000; the
    // numeric outcomes are environment-dependent, so only the shape
    // of the run is asserted here
    let _ = inside_vm();
    let _ = inside_vm_custom(5, 100, 5, 1000);
}
