use vstd::prelude::*;
use crate::weight::{Perbill, PERBILL_ACCURACY};

verus! {

/// Relies on sp_weights' `WEIGHT_REF_TIME_PER_MILLIS`: the computation-time
/// weight of one millisecond, one billion units.
#[verifier::external_body]
fn weight_ref_time_per_millis() -> (r: u64)
    ensures
        r == 1_000_000_000,
{
    sp_weights::constants::WEIGHT_REF_TIME_PER_MILLIS
}

/// The computation-time weight of a block lasting `weight_millis_per_block`
/// milliseconds, saturated at the largest 64-bit value.
pub open spec fn weight_per_block_spec(weight_millis_per_block: u64) -> int {
    let w = 1_000_000_000 * weight_millis_per_block;
    if w > u64::MAX {
        u64::MAX as int
    } else {
        w
    }
}

/// The weight per unit of gas: the share `txn_ratio` (in billionths, rounded
/// down) of a block's computation-time weight, divided by the block's gas
/// limit and rounded down.
pub open spec fn weight_per_gas_spec(
    block_gas_limit: u64,
    txn_ratio: nat,
    weight_millis_per_block: u64,
) -> int {
    (weight_per_block_spec(weight_millis_per_block) * txn_ratio / (PERBILL_ACCURACY as int))
        / (block_gas_limit as int)
}

/// The weight per unit of gas, or `None` when the block gas limit is zero or
/// the configuration would make the ratio zero.
pub fn try_weight_per_gas(
    block_gas_limit: u64,
    txn_ratio: Perbill,
    weight_millis_per_block: u64,
) -> (r: Option<u64>)
    ensures
        r is Some <==> block_gas_limit > 0 && weight_per_gas_spec(
            block_gas_limit,
            txn_ratio@,
            weight_millis_per_block,
        ) >= 1,
        r is Some ==> r->0 == weight_per_gas_spec(
            block_gas_limit,
            txn_ratio@,
            weight_millis_per_block,
        ),
{
    let weight_per_block: u64 = match weight_ref_time_per_millis().checked_mul(
        weight_millis_per_block,
    ) {
        Some(w) => w,
        None => u64::MAX,
    };
    if block_gas_limit == 0 {
        return None;
    }
    let reserved = txn_ratio.mul_floor(weight_per_block);
    let weight_per_gas = reserved / block_gas_limit;
    if weight_per_gas >= 1 {
        Some(weight_per_gas)
    } else {
        None
    }
}

/// The weight per unit of gas for a block gas limit, the share of a block
/// kept for transactions, and the block's duration in milliseconds. The
/// configuration must give a ratio of at least one.
pub fn weight_per_gas(
    block_gas_limit: u64,
    txn_ratio: Perbill,
    weight_millis_per_block: u64,
) -> (r: u64)
    requires
        block_gas_limit > 0,
        weight_per_gas_spec(block_gas_limit, txn_ratio@, weight_millis_per_block) >= 1,
    ensures
        r == weight_per_gas_spec(block_gas_limit, txn_ratio@, weight_millis_per_block),
        r >= 1,
{
    match try_weight_per_gas(block_gas_limit, txn_ratio, weight_millis_per_block) {
        Some(r) => r,
        None => {
            proof {
                assert(false);
            }
            1
        },
    }
}

} // verus!
