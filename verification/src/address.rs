//! Where a visit comes from.

use vstd::prelude::*;

verus! {

/// A network address of a visitor, held by its number: 32 bits for the older
/// family, 128 bits for the newer. Two addresses are the same when family and
/// number agree, so an address of one family never equals one of the other.
#[derive(Clone, Copy, Debug, PartialEq, Eq, Structural)]
pub enum Address {
    V4(u32),
    V6(u128),
}

} // verus!
