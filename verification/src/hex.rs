//! Random run identifiers, shown as lowercase hexadecimal.

use vstd::prelude::*;

use crate::numfmt::{hex_u64, spec_hex};

verus! {

/// An integer identifier that renders as lowercase hexadecimal. The host
/// draws one at random to name a scratch directory.
#[derive(Clone, Copy, PartialEq, Eq, Structural, Debug, Hash)]
pub struct Hex(pub u32);

impl Hex {
    /// The identifier's hexadecimal text, without leading zeros.
    pub fn hex_string(&self) -> (s: String)
        ensures
            s@ == spec_hex(self.0 as nat),
    {
        hex_u64(self.0 as u64)
    }
}

} // verus!
