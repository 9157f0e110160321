//! Network addresses as plain numbers.

use vstd::prelude::*;

verus! {

/// An IPv4 or IPv6 address, held as the integer its bytes spell in network
/// order. Two addresses are equal exactly when they are the same variant
/// with the same number.
#[derive(Clone, Copy, Debug, PartialEq, Eq, Structural, Hash)]
pub enum Address {
    V4(u32),
    V6(u128),
}

} // verus!
