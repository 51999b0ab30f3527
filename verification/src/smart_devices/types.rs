//! Plain measurement types shared by the device kinds.

use vstd::prelude::*;

verus! {

/// A power rating in watts.
pub type Watt = u64;

/// A temperature in degrees Celsius, held in hundredths of a degree so that
/// the two-decimal report rendering is exact.
#[derive(Debug, Clone, Copy, PartialEq, Eq, Structural)]
pub struct Celsius {
    pub centidegrees: i64,
}

impl Celsius {
    /// A temperature from hundredths of a degree Celsius.
    pub fn from_centidegrees(centidegrees: i64) -> (r: Celsius)
        ensures
            r == (Celsius { centidegrees }),
    {
        Celsius { centidegrees }
    }
}

} // verus!
