use rust_threadpool::workload::collatz_steps;

#[test]
fn zero_never_converges() {
    assert_eq!(collatz_steps(0), None);
}

#[test]
fn one_takes_no_steps() {
    assert_eq!(collatz_steps(1), Some(0));
}

#[test]
fn powers_of_two_halve_down() {
    assert_eq!(collatz_steps(2), Some(1));
    assert_eq!(collatz_steps(16), Some(4));
    assert_eq!(collatz_steps(1 << 20), Some(20));
}

#[test]
fn six_converges_in_eight_steps() {
    // 6, 3, 10, 5, 16, 8, 4, 2, 1
    assert_eq!(collatz_steps(6), Some(8));
}

#[test]
fn twenty_seven_converges_in_111_steps() {
    assert_eq!(collatz_steps(27), Some(111));
}

#[test]
fn value_overflow_is_reported() {
    // u64::MAX is odd: the very first step would leave u64
    assert_eq!(collatz_steps(u64::MAX), None);
}
