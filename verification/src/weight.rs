use vstd::prelude::*;

verus! {

/// Two-dimensional resource weight: execution time and proof size.
#[derive(Clone, Copy, Debug, PartialEq, Eq, Structural)]
pub struct Weight {
    pub ref_time: u64,
    pub proof_size: u64,
}

/// Saturating addition of one unsigned 64-bit component.
pub open spec fn sat_add(a: u64, b: u64) -> u64 {
    if a + b > u64::MAX { u64::MAX } else { (a + b) as u64 }
}

/// Saturating subtraction of one unsigned 64-bit component.
pub open spec fn sat_sub(a: u64, b: u64) -> u64 {
    if a >= b { (a - b) as u64 } else { 0 }
}

pub open spec fn max_u64(a: u64, b: u64) -> u64 {
    if a >= b { a } else { b }
}

pub open spec fn min_u64(a: u64, b: u64) -> u64 {
    if a <= b { a } else { b }
}

/// Component-wise subtraction, `None` when either component would underflow.
pub open spec fn spec_checked_sub(a: Weight, b: Weight) -> Option<Weight> {
    if b.spec_all_lte(a) {
        Some(Weight { ref_time: (a.ref_time - b.ref_time) as u64, proof_size: (a.proof_size - b.proof_size) as u64 })
    } else {
        None
    }
}

/// `spec_checked_sub` continued from an earlier optional result.
pub open spec fn spec_then_sub(o: Option<Weight>, b: Weight) -> Option<Weight> {
    match o {
        Some(a) => spec_checked_sub(a, b),
        None => None,
    }
}

impl Weight {
    pub open spec fn spec_all_lte(self, other: Weight) -> bool {
        self.ref_time <= other.ref_time && self.proof_size <= other.proof_size
    }

    pub fn zero() -> (w: Weight)
        ensures
            w.ref_time == 0,
            w.proof_size == 0,
    {
        Weight { ref_time: 0, proof_size: 0 }
    }

    pub fn from_parts(ref_time: u64, proof_size: u64) -> (w: Weight)
        ensures
            w.ref_time == ref_time,
            w.proof_size == proof_size,
    {
        Weight { ref_time, proof_size }
    }

    pub fn is_zero(&self) -> (r: bool)
        ensures
            r == (self.ref_time == 0 && self.proof_size == 0),
    {
        self.ref_time == 0 && self.proof_size == 0
    }

    pub fn saturating_add(&self, other: Weight) -> (w: Weight)
        ensures
            w.ref_time == sat_add(self.ref_time, other.ref_time),
            w.proof_size == sat_add(self.proof_size, other.proof_size),
    {
        Weight {
            ref_time: self.ref_time.saturating_add(other.ref_time),
            proof_size: self.proof_size.saturating_add(other.proof_size),
        }
    }

    pub fn saturating_sub(&self, other: Weight) -> (w: Weight)
        ensures
            w.ref_time == sat_sub(self.ref_time, other.ref_time),
            w.proof_size == sat_sub(self.proof_size, other.proof_size),
    {
        Weight {
            ref_time: self.ref_time.saturating_sub(other.ref_time),
            proof_size: self.proof_size.saturating_sub(other.proof_size),
        }
    }

    /// Component-wise subtraction that fails when either component would underflow.
    pub fn checked_sub(&self, other: Weight) -> (r: Option<Weight>)
        ensures
            r is Some <==> other.spec_all_lte(*self),
            r matches Some(w) ==> w.ref_time == self.ref_time - other.ref_time
                && w.proof_size == self.proof_size - other.proof_size,
    {
        if other.ref_time <= self.ref_time && other.proof_size <= self.proof_size {
            Some(Weight {
                ref_time: self.ref_time - other.ref_time,
                proof_size: self.proof_size - other.proof_size,
            })
        } else {
            None
        }
    }

    pub fn all_lte(&self, other: Weight) -> (r: bool)
        ensures
            r == self.spec_all_lte(other),
    {
        self.ref_time <= other.ref_time && self.proof_size <= other.proof_size
    }

    /// Component-wise maximum.
    pub fn component_max(&self, other: Weight) -> (w: Weight)
        ensures
            w.ref_time == max_u64(self.ref_time, other.ref_time),
            w.proof_size == max_u64(self.proof_size, other.proof_size),
    {
        Weight {
            ref_time: if self.ref_time >= other.ref_time { self.ref_time } else { other.ref_time },
            proof_size: if self.proof_size >= other.proof_size { self.proof_size } else { other.proof_size },
        }
    }

    /// Component-wise minimum.
    pub fn component_min(&self, other: Weight) -> (w: Weight)
        ensures
            w.ref_time == min_u64(self.ref_time, other.ref_time),
            w.proof_size == min_u64(self.proof_size, other.proof_size),
    {
        Weight {
            ref_time: if self.ref_time <= other.ref_time { self.ref_time } else { other.ref_time },
            proof_size: if self.proof_size <= other.proof_size { self.proof_size } else { other.proof_size },
        }
    }
}

} // verus!
