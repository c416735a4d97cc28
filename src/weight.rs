use vstd::prelude::*;

verus! {

/// Number of parts in a whole `Perbill`.
pub const PERBILL_ACCURACY: u32 = 1_000_000_000;

/// A two-dimensional weight: computation time and proof size.
#[derive(Clone, Copy, Debug, PartialEq, Eq, Structural)]
pub struct Weight {
    pub ref_time: u64,
    pub proof_size: u64,
}

impl Weight {
    pub fn from_parts(ref_time: u64, proof_size: u64) -> (r: Weight)
        ensures
            r.ref_time == ref_time,
            r.proof_size == proof_size,
    {
        Weight { ref_time, proof_size }
    }

    pub fn zero() -> (r: Weight)
        ensures
            r.ref_time == 0,
            r.proof_size == 0,
    {
        Weight { ref_time: 0, proof_size: 0 }
    }

    pub fn ref_time(&self) -> (r: u64)
        ensures
            r == self.ref_time,
    {
        self.ref_time
    }

    pub fn proof_size(&self) -> (r: u64)
        ensures
            r == self.proof_size,
    {
        self.proof_size
    }
}

/// A fraction in `[0, 1]`, counted in billionths.
#[derive(Clone, Copy, Debug)]
pub struct Perbill {
    parts: u32,
}

/// Relies on sp_arithmetic's `Perbill::from_percent`: `min(x, 100)` hundredths,
/// expressed in billionths.
#[verifier::external_body]
fn perbill_parts_from_percent(x: u32) -> (r: u32)
    ensures
        r == (if x > 100 { 100 } else { x }) * 10_000_000,
{
    sp_arithmetic::Perbill::from_percent(x).deconstruct()
}

/// Relies on sp_arithmetic's `Perbill::mul_floor`: `b * parts / 1_000_000_000`,
/// rounded down, for parts no larger than a whole.
#[verifier::external_body]
fn perbill_mul_floor(parts: u32, b: u64) -> (r: u64)
    requires
        parts <= PERBILL_ACCURACY,
    ensures
        r == (b as int * parts as int) / (PERBILL_ACCURACY as int),
{
    sp_arithmetic::Perbill::from_parts(parts).mul_floor(b)
}

impl Perbill {
    #[verifier::type_invariant]
    spec fn inv(self) -> bool {
        self.parts <= PERBILL_ACCURACY
    }

    /// The number of billionths this fraction stands for.
    pub closed spec fn view(self) -> nat {
        self.parts as nat
    }

    /// The fraction `x / 100`; values above one hundred mean the whole.
    pub fn from_percent(x: u32) -> (r: Perbill)
        ensures
            r@ == (if x > 100 { 100 } else { x }) * 10_000_000,
    {
        let parts = perbill_parts_from_percent(x);
        Perbill { parts }
    }

    /// The fraction `parts / 1_000_000_000`; values above a whole mean the whole.
    pub fn from_parts(parts: u32) -> (r: Perbill)
        ensures
            r@ == (if parts > PERBILL_ACCURACY { PERBILL_ACCURACY } else { parts }),
    {
        if parts > PERBILL_ACCURACY {
            Perbill { parts: PERBILL_ACCURACY }
        } else {
            Perbill { parts }
        }
    }

    pub fn deconstruct(&self) -> (r: u32)
        ensures
            r == self@,
            r <= PERBILL_ACCURACY,
    {
        proof { use_type_invariant(self); }
        self.parts
    }

    /// This fraction of `b`, rounded down.
    pub fn mul_floor(&self, b: u64) -> (r: u64)
        ensures
            r == (b as int * self@) / (PERBILL_ACCURACY as int),
            r <= b,
    {
        proof { use_type_invariant(self); }
        let r = perbill_mul_floor(self.parts, b);
        proof {
            assert(b as int * self.parts as int <= b as int * PERBILL_ACCURACY as int)
                by (nonlinear_arith)
                requires self.parts <= PERBILL_ACCURACY;
            assert((b as int * self.parts as int) / (PERBILL_ACCURACY as int) <= b)
                by (nonlinear_arith)
                requires b as int * self.parts as int <= b as int * PERBILL_ACCURACY as int;
        }
        r
    }
}

} // verus!
