//! Dual-resource metering for contract execution: a meter over the two
//! dimensions of weight (computation time and proof size), its binary form,
//! and the calibration of the weight-per-gas conversion ratio.

mod weight;
mod meter;
mod calibration;
mod codec;

pub use weight::{Weight, Perbill, PERBILL_ACCURACY};
pub use meter::{
    ExitError, WeightInfo, consume_ok, usage_after, refund_after, consume_all, total_cost,
    meter_from_limit, lemma_consume_up_to_limit, lemma_untracked_always_succeeds,
    lemma_refund_after_exhaustion, lemma_overflow_fails,
};
pub use calibration::{
    weight_per_gas, try_weight_per_gas, weight_per_gas_spec, weight_per_block_spec,
};
pub use codec::{
    u64_le_bytes, u64_from_le_bytes, option_u64_encoding, weight_info_encoding,
    weight_info_decoding, lemma_weight_info_encoding_injective, lemma_weight_info_round_trip,
};
