//! Metric values and the table that holds one cycle of them.

use vstd::hash_map::StringHashMap;
use vstd::prelude::*;

verus! {

/// A single-precision number, held as its IEEE 754 bit pattern. It is carried
/// from the profile to the published payload and never computed with here.
#[derive(Clone, Copy, PartialEq, Eq, Debug, Structural)]
pub struct Single {
    pub bits: u32,
}

impl Single {
    /// The number zero, whose bit pattern is all zeros.
    pub fn zero() -> (r: Single)
        ensures
            r == (Single { bits: 0 }),
    {
        Single { bits: 0 }
    }
}

/// The value of a metric.
#[derive(Clone, Copy, PartialEq, Eq, Debug, Structural)]
pub enum Quantity {
    /// An integer read off the bus; it stands for `raw * multiplier + offset`.
    Scaled { raw: i32, multiplier: Single, offset: Single },
    /// A number that is reported as it is.
    Plain(Single),
}

/// The metrics of one cycle, by name.
pub type Metrics = StringHashMap<Quantity>;

} // verus!
