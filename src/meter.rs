use vstd::prelude::*;
use crate::weight::Weight;

verus! {

/// Why a metered operation could not proceed.
#[derive(Clone, Copy, Debug, PartialEq, Eq, Structural)]
pub enum ExitError {
    /// A dimension's usage would pass its limit or overflow.
    OutOfGas,
}

/// Consumption of the two weight dimensions against optional limits.
///
/// A dimension is tracked when both its limit and its usage are present;
/// otherwise consuming or refunding it does nothing.
#[derive(Clone, Copy, Debug, PartialEq, Eq, Structural)]
pub struct WeightInfo {
    pub ref_time_limit: Option<u64>,
    pub proof_size_limit: Option<u64>,
    pub ref_time_usage: Option<u64>,
    pub proof_size_usage: Option<u64>,
}

/// Whether consuming `cost` in a dimension with this usage and limit succeeds:
/// always for an untracked dimension, otherwise when the new usage stays
/// within the limit (which also rules out overflow).
pub open spec fn consume_ok(usage: Option<u64>, limit: Option<u64>, cost: u64) -> bool {
    match (usage, limit) {
        (Some(u), Some(l)) => u + cost <= l,
        _ => true,
    }
}

/// The usage of a dimension after consuming `cost`; a rejected consumption
/// leaves it as it was.
pub open spec fn usage_after(usage: Option<u64>, limit: Option<u64>, cost: u64) -> Option<u64> {
    match (usage, limit) {
        (Some(u), Some(l)) => if u + cost <= l { Some((u + cost) as u64) } else { usage },
        _ => usage,
    }
}

/// The usage of a dimension after a refund of `amount`, floored at zero.
pub open spec fn refund_after(usage: Option<u64>, amount: u64) -> Option<u64> {
    match usage {
        Some(u) => Some(if u >= amount { (u - amount) as u64 } else { 0u64 }),
        None => None,
    }
}

/// The usage after consuming each of `costs` in order, or `None` when one of
/// them is rejected.
pub open spec fn consume_all(usage: Option<u64>, limit: Option<u64>, costs: Seq<u64>) -> Option<
    Option<u64>,
>
    decreases costs.len(),
{
    if costs.len() == 0 {
        Some(usage)
    } else {
        match consume_all(usage, limit, costs.drop_last()) {
            Some(u) => if consume_ok(u, limit, costs.last()) {
                Some(usage_after(u, limit, costs.last()))
            } else {
                None
            },
            None => None,
        }
    }
}

/// The sum of `costs`.
pub open spec fn total_cost(costs: Seq<u64>) -> int
    decreases costs.len(),
{
    if costs.len() == 0 {
        0
    } else {
        total_cost(costs.drop_last()) + costs.last()
    }
}

/// The meter built from an optional weight limit: untracked in both
/// dimensions without a limit, tracked from zero in each dimension whose
/// limit is positive, and an error when a limit has no positive dimension.
pub open spec fn meter_from_limit(weight_limit: Option<Weight>) -> Option<Option<WeightInfo>> {
    match weight_limit {
        None => Some(None),
        Some(w) => if w.ref_time == 0 && w.proof_size == 0 {
            None
        } else {
            Some(
                Some(
                    WeightInfo {
                        ref_time_limit: if w.ref_time > 0 { Some(w.ref_time) } else { None },
                        proof_size_limit: if w.proof_size > 0 { Some(w.proof_size) } else { None },
                        ref_time_usage: if w.ref_time > 0 { Some(0u64) } else { None },
                        proof_size_usage: if w.proof_size > 0 { Some(0u64) } else { None },
                    },
                ),
            )
        },
    }
}

/// Consuming, in any order, costs whose sum is at most the limit succeeds at
/// every step and leaves the sum as usage.
proof fn lemma_consume_within_limit(limit: u64, costs: Seq<u64>)
    requires
        total_cost(costs) <= limit,
    ensures
        0 <= total_cost(costs),
        consume_all(Some(0u64), Some(limit), costs) == Some(Some(total_cost(costs) as u64)),
    decreases costs.len(),
{
    if costs.len() > 0 {
        assert(total_cost(costs) == total_cost(costs.drop_last()) + costs.last());
        lemma_consume_within_limit(limit, costs.drop_last());
    }
}

/// A meter built from a limit whose computation time is positive accepts any
/// sequence of time charges that add up exactly to that limit, ending with
/// usage equal to the limit; a further charge of one or more units is then
/// rejected and leaves the usage unchanged. The same holds of proof size.
pub proof fn lemma_consume_up_to_limit(
    w: Weight,
    time_costs: Seq<u64>,
    proof_costs: Seq<u64>,
    extra: u64,
)
    requires
        w.ref_time > 0 || w.proof_size > 0,
        w.ref_time > 0 ==> total_cost(time_costs) == w.ref_time,
        w.proof_size > 0 ==> total_cost(proof_costs) == w.proof_size,
        extra >= 1,
    ensures
        ({
            let m = meter_from_limit(Some(w))->0->0;
            &&& meter_from_limit(Some(w)) matches Some(Some(_))
            &&& w.ref_time > 0 ==> {
                &&& consume_all(m.ref_time_usage, m.ref_time_limit, time_costs) == Some(
                    Some(w.ref_time),
                )
                &&& !consume_ok(Some(w.ref_time), m.ref_time_limit, extra)
                &&& usage_after(Some(w.ref_time), m.ref_time_limit, extra) == Some(w.ref_time)
            }
            &&& w.proof_size > 0 ==> {
                &&& consume_all(m.proof_size_usage, m.proof_size_limit, proof_costs) == Some(
                    Some(w.proof_size),
                )
                &&& !consume_ok(Some(w.proof_size), m.proof_size_limit, extra)
                &&& usage_after(Some(w.proof_size), m.proof_size_limit, extra) == Some(
                    w.proof_size,
                )
            }
        }),
{
    if w.ref_time > 0 {
        lemma_consume_within_limit(w.ref_time, time_costs);
    }
    if w.proof_size > 0 {
        lemma_consume_within_limit(w.proof_size, proof_costs);
    }
}

/// In an untracked dimension every charge, however large, succeeds and the
/// usage stays absent.
pub proof fn lemma_untracked_always_succeeds(limit: Option<u64>, costs: Seq<u64>)
    ensures
        consume_all(None, limit, costs) == Some(None::<u64>),
    decreases costs.len(),
{
    if costs.len() > 0 {
        lemma_untracked_always_succeeds(limit, costs.drop_last());
    }
}

/// After a dimension is consumed up to its limit, refunding more than its
/// total usage brings the usage to exactly zero.
pub proof fn lemma_refund_after_exhaustion(limit: u64, costs: Seq<u64>, amount: u64)
    requires
        total_cost(costs) == limit,
        amount > limit,
    ensures
        consume_all(Some(0u64), Some(limit), costs) == Some(Some(limit)),
        refund_after(Some(limit), amount) == Some(0u64),
{
    lemma_consume_within_limit(limit, costs);
}

/// A charge whose sum with the usage does not fit in 64 bits is rejected and
/// leaves the usage unchanged, whatever the limit.
pub proof fn lemma_overflow_fails(usage: u64, limit: Option<u64>, cost: u64)
    requires
        usage + cost > u64::MAX,
        limit is Some,
    ensures
        !consume_ok(Some(usage), limit, cost),
        usage_after(Some(usage), limit, cost) == Some(usage),
{
}

impl WeightInfo {
    /// Both dimensions are either untracked, or tracked with usage within
    /// the limit.
    pub open spec fn wf(self) -> bool {
        &&& (self.ref_time_limit is Some <==> self.ref_time_usage is Some)
        &&& (self.proof_size_limit is Some <==> self.proof_size_usage is Some)
        &&& (self.ref_time_usage is Some ==> self.ref_time_usage->0 <= self.ref_time_limit->0)
        &&& (self.proof_size_usage is Some ==> self.proof_size_usage->0
            <= self.proof_size_limit->0)
    }

    pub fn new_from_weight_limit(weight_limit: Option<Weight>) -> (r: Result<
        Option<Self>,
        &'static str,
    >)
        ensures
            r is Ok <==> meter_from_limit(weight_limit) is Some,
            r is Ok ==> Some(r->Ok_0) == meter_from_limit(weight_limit),
            r is Ok && r->Ok_0 is Some ==> r->Ok_0->0.wf(),
    {
        match weight_limit {
            None => Ok(None),
            Some(w) => {
                let ref_time = w.ref_time();
                let proof_size = w.proof_size();
                if ref_time > 0 && proof_size > 0 {
                    Ok(
                        Some(
                            WeightInfo {
                                ref_time_limit: Some(ref_time),
                                proof_size_limit: Some(proof_size),
                                ref_time_usage: Some(0u64),
                                proof_size_usage: Some(0u64),
                            },
                        ),
                    )
                } else if ref_time > 0 {
                    Ok(
                        Some(
                            WeightInfo {
                                ref_time_limit: Some(ref_time),
                                proof_size_limit: None,
                                ref_time_usage: Some(0u64),
                                proof_size_usage: None,
                            },
                        ),
                    )
                } else if proof_size > 0 {
                    Ok(
                        Some(
                            WeightInfo {
                                ref_time_limit: None,
                                proof_size_limit: Some(proof_size),
                                ref_time_usage: None,
                                proof_size_usage: Some(0u64),
                            },
                        ),
                    )
                } else {
                    Err("must provide Some valid weight limit or None")
                }
            },
        }
    }

    /// `usage + cost`, unless that overflows or passes `limit`.
    fn try_consume(&self, cost: u64, limit: u64, usage: u64) -> (r: Result<u64, ExitError>)
        ensures
            usage + cost <= limit ==> r == Ok::<u64, ExitError>((usage + cost) as u64),
            usage + cost > limit ==> r == Err::<u64, ExitError>(ExitError::OutOfGas),
    {
        let usage = match usage.checked_add(cost) {
            Some(u) => u,
            None => return Err(ExitError::OutOfGas),
        };
        if usage > limit {
            return Err(ExitError::OutOfGas);
        }
        Ok(usage)
    }

    /// Charges `cost` to the computation-time dimension.
    pub fn try_record_ref_time_or_fail(&mut self, cost: u64) -> (r: Result<(), ExitError>)
        ensures
            r is Ok <==> consume_ok(old(self).ref_time_usage, old(self).ref_time_limit, cost),
            r is Err ==> r == Err::<(), ExitError>(ExitError::OutOfGas),
            *final(self) == (WeightInfo {
                ref_time_usage: usage_after(
                    old(self).ref_time_usage,
                    old(self).ref_time_limit,
                    cost,
                ),
                ..*old(self)
            }),
            old(self).wf() ==> final(self).wf(),
    {
        if let (Some(ref_time_usage), Some(ref_time_limit)) = (
            self.ref_time_usage,
            self.ref_time_limit,
        ) {
            let ref_time_usage = self.try_consume(cost, ref_time_limit, ref_time_usage)?;
            self.ref_time_usage = Some(ref_time_usage);
        }
        Ok(())
    }

    /// Charges `cost` to the proof-size dimension.
    pub fn try_record_proof_size_or_fail(&mut self, cost: u64) -> (r: Result<(), ExitError>)
        ensures
            r is Ok <==> consume_ok(old(self).proof_size_usage, old(self).proof_size_limit, cost),
            r is Err ==> r == Err::<(), ExitError>(ExitError::OutOfGas),
            *final(self) == (WeightInfo {
                proof_size_usage: usage_after(
                    old(self).proof_size_usage,
                    old(self).proof_size_limit,
                    cost,
                ),
                ..*old(self)
            }),
            old(self).wf() ==> final(self).wf(),
    {
        if let (Some(proof_size_usage), Some(proof_size_limit)) = (
            self.proof_size_usage,
            self.proof_size_limit,
        ) {
            let proof_size_usage = self.try_consume(cost, proof_size_limit, proof_size_usage)?;
            self.proof_size_usage = Some(proof_size_usage);
        }
        Ok(())
    }

    /// Gives back `amount` of proof size; usage never goes below zero.
    pub fn refund_proof_size(&mut self, amount: u64)
        ensures
            *final(self) == (WeightInfo {
                proof_size_usage: refund_after(old(self).proof_size_usage, amount),
                ..*old(self)
            }),
            old(self).wf() ==> final(self).wf(),
    {
        if let Some(proof_size_usage) = self.proof_size_usage {
            let proof_size_usage = proof_size_usage.saturating_sub(amount);
            self.proof_size_usage = Some(proof_size_usage);
        }
    }

    /// Gives back `amount` of computation time; usage never goes below zero.
    pub fn refund_ref_time(&mut self, amount: u64)
        ensures
            *final(self) == (WeightInfo {
                ref_time_usage: refund_after(old(self).ref_time_usage, amount),
                ..*old(self)
            }),
            old(self).wf() ==> final(self).wf(),
    {
        if let Some(ref_time_usage) = self.ref_time_usage {
            let ref_time_usage = ref_time_usage.saturating_sub(amount);
            self.ref_time_usage = Some(ref_time_usage);
        }
    }
}

} // verus!
