use fp_evm::{Weight, WeightInfo};
use parity_scale_codec::Encode;

fn sample() -> WeightInfo {
    WeightInfo {
        ref_time_limit: Some(0x0102_0304_0506_0708),
        proof_size_limit: None,
        ref_time_usage: Some(0),
        proof_size_usage: None,
    }
}

#[test]
fn encode_matches_scale_layout() {
    let w = sample();
    let expected = (
        w.ref_time_limit,
        w.proof_size_limit,
        w.ref_time_usage,
        w.proof_size_usage,
    )
        .encode();
    assert_eq!(w.encode(), expected);
    assert_eq!(
        w.encode(),
        vec![1, 8, 7, 6, 5, 4, 3, 2, 1, 0, 1, 0, 0, 0, 0, 0, 0, 0, 0, 0]
    );
}

#[test]
fn round_trip_keeps_meter() {
    let w = sample();
    assert_eq!(WeightInfo::decode_all(&w.encode()), Some(w));
    let mut m = WeightInfo::new_from_weight_limit(Some(Weight::from_parts(100, 7)))
        .unwrap()
        .unwrap();
    assert_eq!(m.try_record_ref_time_or_fail(42), Ok(()));
    assert_eq!(WeightInfo::decode_all(&m.encode()), Some(m));
}

#[test]
fn absent_and_zero_encode_differently() {
    let absent = WeightInfo {
        ref_time_limit: None,
        proof_size_limit: None,
        ref_time_usage: None,
        proof_size_usage: None,
    };
    let zero = WeightInfo {
        ref_time_limit: Some(0),
        proof_size_limit: Some(0),
        ref_time_usage: Some(0),
        proof_size_usage: Some(0),
    };
    assert_eq!(absent.encode(), vec![0, 0, 0, 0]);
    assert_eq!(zero.encode().len(), 36);
    assert_ne!(absent.encode(), zero.encode());
    assert_eq!(WeightInfo::decode_all(&absent.encode()), Some(absent));
    assert_eq!(WeightInfo::decode_all(&zero.encode()), Some(zero));
}

#[test]
fn decode_rejects_malformed_input() {
    assert_eq!(WeightInfo::decode_all(&[]), None);
    assert_eq!(WeightInfo::decode_all(&[0, 0, 0]), None);
    assert_eq!(WeightInfo::decode_all(&[0, 0, 0, 0, 0]), None);
    assert_eq!(WeightInfo::decode_all(&[2, 0, 0, 0]), None);
    assert_eq!(WeightInfo::decode_all(&[1, 1, 2, 3, 0, 0, 0]), None);
}
