//! The flags decoder: reads the capability-flags byte out of one AD
//! structure's payload.

use vstd::prelude::*;

verus! {

/// Returns the capability-flags byte exactly when the payload is a single
/// byte, and nothing for a payload of any other length. The byte is a
/// bitmask left to the caller to interpret (bit 0: limited discoverable;
/// bit 1: general discoverable; bit 2: classic radio not supported).
pub fn parse_flags(data: &[u8]) -> (flags: Option<u8>)
    ensures
        flags == (if data@.len() == 1 {
            Some(data@[0])
        } else {
            None::<u8>
        }),
{
    if data.len() == 1 {
        Some(data[0])
    } else {
        None
    }
}

} // verus!
