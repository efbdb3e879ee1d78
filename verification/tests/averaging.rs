use inside_vm::trimmed_average;

#[test]
fn averages_middle_samples_after_trimming() {
    // sorted: [1, 2, 3, 4, 5]; drop 1 low and 1 high; mean of [2, 3, 4]
    assert_eq!(trimmed_average(vec![5, 1, 4, 2, 3], 1, 3, 1), 3);
}

#[test]
fn drops_outliers_on_both_ends() {
    // sorted: [0, 5, 5, 5, 100]; the extremes are discarded
    assert_eq!(trimmed_average(vec![0, 5, 5, 5, 100], 1, 3, 1), 5);
}

#[test]
fn no_trimming_is_plain_mean() {
    // mean over all raw samples when no outliers are dropped
    assert_eq!(trimmed_average(vec![3, 1, 2], 0, 3, 0), 2);
}

#[test]
fn mean_uses_integer_division() {
    // (1 + 2) / 2 == 1 in integer arithmetic
    assert_eq!(trimmed_average(vec![1, 2], 0, 2, 0), 1);
}

#[test]
fn larger_run_with_trimming() {
    // 0..110 sorted; retained entries are 5..=104, whose mean is 54
    let cycles: Vec<u64> = (0..110).collect();
    assert_eq!(trimmed_average(cycles, 5, 100, 5), 54);
}

#[test]
fn unsorted_input_is_sorted_first() {
    // sorted: 0..=9; window 2..8 sums to 27, mean 27 / 6 == 4
    assert_eq!(trimmed_average(vec![9, 7, 8, 1, 0, 3, 2, 6, 5, 4], 2, 6, 2), 4);
}

#[test]
fn zero_samples_yields_zero() {
    // the divisor is clamped, so the degenerate mean is 0, not a crash
    assert_eq!(trimmed_average(vec![10, 20], 1, 0, 1), 0);
}

#[test]
fn equal_samples_average_to_themselves() {
    assert_eq!(trimmed_average(vec![7, 7, 7, 7], 1, 2, 1), 7);
}

#[test]
fn empty_input_zero_everything() {
    assert_eq!(trimmed_average(Vec::new(), 0, 0, 0), 0);
}
