//! The RGB color type used for the LED strip state and the wire protocol.

use vstd::prelude::*;

verus! {

/// Color of a single LED: one byte per channel.
#[derive(Clone, Copy, Debug, PartialEq, Eq, Structural)]
pub struct RGB {
    pub r: u8,
    pub g: u8,
    pub b: u8,
}

impl RGB {
    /// The color with every channel zero.
    pub open spec fn black_spec() -> RGB {
        RGB { r: 0, g: 0, b: 0 }
    }

    /// Cap every channel at `limit`.
    pub fn limit(&mut self, limit: u8)
        ensures
            *final(self) == (RGB {
                r: if old(self).r < limit { old(self).r } else { limit },
                g: if old(self).g < limit { old(self).g } else { limit },
                b: if old(self).b < limit { old(self).b } else { limit },
            }),
    {
        if self.r > limit {
            self.r = limit;
        }
        if self.g > limit {
            self.g = limit;
        }
        if self.b > limit {
            self.b = limit;
        }
    }
}

impl Default for RGB {
    /// LEDs start out black.
    fn default() -> (r: RGB)
        ensures
            r == RGB::black_spec(),
    {
        RGB { r: 0, g: 0, b: 0 }
    }
}

} // verus!
