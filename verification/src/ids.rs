//! Fresh identifiers. Identifiers are held as the 128-bit value of a UUID.
use vstd::prelude::*;

verus! {

/// An identifier of the form `new_v4` draws: version nibble 4, variant bits `10`.
pub open spec fn is_v4(id: u128) -> bool {
    id & 0xF000C000000000000000u128 == 0x40008000000000000000u128
}

/// Draws a fresh identifier with `uuid::Uuid::new_v4` and hands back its
/// 128-bit value (`Uuid::as_u128`). The uuid crate builds that value from
/// random bits, then forces the version nibble to 4 and the variant bits to
/// `10`; that is all the contract claims: which identifier comes out is chance.
#[verifier::external_body]
pub(crate) fn new_v4() -> (id: u128)
    ensures
        is_v4(id),
{
    uuid::Uuid::new_v4().as_u128()
}

} // verus!
