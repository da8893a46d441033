use vstd::prelude::*;

verus! {

/// A length (an altitude), held exactly as a count of 1.0e-4 metre units
/// (a tenth of a millimetre).
#[derive(Debug, Clone, Copy, PartialEq, Eq, Structural)]
pub struct Length {
    pub meters_e4: i64,
}

impl Length {
    /// A length of so many 1.0e-4 metre units.
    pub fn from_meters_e4(meters_e4: i64) -> (r: Length)
        ensures
            r == (Length { meters_e4 }),
    {
        Length { meters_e4 }
    }

    /// The unit count.
    pub fn as_meters_e4(&self) -> (r: i64)
        ensures
            r == self.meters_e4,
    {
        self.meters_e4
    }
}

} // verus!
