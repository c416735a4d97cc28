use fp_evm::{ExitError, Weight, WeightInfo};

fn meter(ref_time: u64, proof_size: u64) -> WeightInfo {
    WeightInfo::new_from_weight_limit(Some(Weight::from_parts(ref_time, proof_size)))
        .unwrap()
        .unwrap()
}

#[test]
fn new_without_limit_is_untracked() {
    assert_eq!(WeightInfo::new_from_weight_limit(None), Ok(None));
}

#[test]
fn new_with_both_dimensions() {
    let m = meter(10, 20);
    assert_eq!(m.ref_time_limit, Some(10));
    assert_eq!(m.proof_size_limit, Some(20));
    assert_eq!(m.ref_time_usage, Some(0));
    assert_eq!(m.proof_size_usage, Some(0));
}

#[test]
fn new_with_one_dimension() {
    let m = meter(10, 0);
    assert_eq!(m.ref_time_limit, Some(10));
    assert_eq!(m.proof_size_limit, None);
    assert_eq!(m.ref_time_usage, Some(0));
    assert_eq!(m.proof_size_usage, None);
    let m = meter(0, 20);
    assert_eq!(m.ref_time_limit, None);
    assert_eq!(m.proof_size_limit, Some(20));
    assert_eq!(m.ref_time_usage, None);
    assert_eq!(m.proof_size_usage, Some(0));
}

#[test]
fn new_with_zero_limit_fails() {
    assert!(WeightInfo::new_from_weight_limit(Some(Weight::zero())).is_err());
}

#[test]
fn consume_up_to_limit_then_one_more_fails() {
    let mut m = meter(100, 50);
    assert_eq!(m.try_record_ref_time_or_fail(40), Ok(()));
    assert_eq!(m.try_record_ref_time_or_fail(60), Ok(()));
    assert_eq!(m.ref_time_usage, Some(100));
    assert_eq!(m.try_record_ref_time_or_fail(1), Err(ExitError::OutOfGas));
    assert_eq!(m.ref_time_usage, Some(100));
    assert_eq!(m.try_record_proof_size_or_fail(50), Ok(()));
    assert_eq!(m.try_record_proof_size_or_fail(1), Err(ExitError::OutOfGas));
    assert_eq!(m.proof_size_usage, Some(50));
}

#[test]
fn rejected_consume_leaves_usage() {
    let mut m = meter(100, 100);
    assert_eq!(m.try_record_proof_size_or_fail(30), Ok(()));
    assert_eq!(m.try_record_proof_size_or_fail(71), Err(ExitError::OutOfGas));
    assert_eq!(m.proof_size_usage, Some(30));
    assert_eq!(m.try_record_proof_size_or_fail(70), Ok(()));
    assert_eq!(m.proof_size_usage, Some(100));
}

#[test]
fn untracked_dimension_accepts_anything() {
    let mut m = meter(10, 0);
    assert_eq!(m.try_record_proof_size_or_fail(u64::MAX), Ok(()));
    assert_eq!(m.try_record_proof_size_or_fail(u64::MAX), Ok(()));
    assert_eq!(m.proof_size_usage, None);
    let mut m = meter(0, 10);
    assert_eq!(m.try_record_ref_time_or_fail(u64::MAX), Ok(()));
    assert_eq!(m.ref_time_usage, None);
}

#[test]
fn refund_after_exhaustion_is_zero() {
    let mut m = meter(100, 100);
    assert_eq!(m.try_record_ref_time_or_fail(100), Ok(()));
    m.refund_ref_time(150);
    assert_eq!(m.ref_time_usage, Some(0));
    assert_eq!(m.try_record_proof_size_or_fail(100), Ok(()));
    m.refund_proof_size(u64::MAX);
    assert_eq!(m.proof_size_usage, Some(0));
}

#[test]
fn partial_refund_subtracts() {
    let mut m = meter(100, 100);
    assert_eq!(m.try_record_ref_time_or_fail(80), Ok(()));
    m.refund_ref_time(30);
    assert_eq!(m.ref_time_usage, Some(50));
    assert_eq!(m.try_record_proof_size_or_fail(80), Ok(()));
    m.refund_proof_size(5);
    assert_eq!(m.proof_size_usage, Some(75));
}

#[test]
fn refund_on_untracked_does_nothing() {
    let mut m = meter(10, 0);
    m.refund_proof_size(5);
    assert_eq!(m.proof_size_usage, None);
    assert_eq!(m.ref_time_usage, Some(0));
}

#[test]
fn overflow_fails_whatever_the_limit() {
    let mut m = meter(u64::MAX, u64::MAX);
    assert_eq!(m.try_record_ref_time_or_fail(u64::MAX - 1), Ok(()));
    assert_eq!(m.try_record_ref_time_or_fail(2), Err(ExitError::OutOfGas));
    assert_eq!(m.ref_time_usage, Some(u64::MAX - 1));
    assert_eq!(m.try_record_ref_time_or_fail(1), Ok(()));
    assert_eq!(m.ref_time_usage, Some(u64::MAX));
    assert_eq!(m.try_record_proof_size_or_fail(u64::MAX), Ok(()));
    assert_eq!(m.try_record_proof_size_or_fail(u64::MAX), Err(ExitError::OutOfGas));
    assert_eq!(m.proof_size_usage, Some(u64::MAX));
}

#[test]
fn weight_accessors() {
    let w = Weight::from_parts(3, 4);
    assert_eq!(w.ref_time(), 3);
    assert_eq!(w.proof_size(), 4);
    assert_eq!(Weight::zero(), Weight::from_parts(0, 0));
}
