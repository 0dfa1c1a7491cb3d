//! The standard message types.
use vstd::prelude::*;

verus! {

pub const REQUEST: u16 = 1;
pub const RESPONSE: u16 = 2;
pub const EVENT: u16 = 3;
pub const BROADCAST: u16 = 4;

} // verus!
