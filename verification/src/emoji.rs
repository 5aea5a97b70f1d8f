//! Codes of the icons that widgets show.

use vstd::prelude::*;

verus! {

/// Code of the light bulb.
pub const LIGHT_BULB: &'static str = "1F4A1";

/// Code of the coffee machine.
pub const COFFEE_MACHINE: &'static str = "E150";

} // verus!
