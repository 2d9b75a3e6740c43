//! The calculator's secondary apps. Only their state lives here; drawing
//! and platform wiring stay with the embedding front end.

use vstd::prelude::*;

verus! {

/// A placeholder app that only paints a title screen; it holds no state of
/// its own.
pub struct AspectRatioCalculator {}

impl AspectRatioCalculator {
    pub fn new() -> AspectRatioCalculator {
        AspectRatioCalculator {  }
    }
}

} // verus!
