use crate::item::ItemId;
use vstd::prelude::*;

verus! {

/// Whether `id` carries the marks of a random (version 4) identifier: the
/// version digit is 4 and the two variant bits are `10`.
pub open spec fn is_random_id(id: ItemId) -> bool {
    id & 0x0000_0000_0000_F000_C000_0000_0000_0000u128
        == 0x0000_0000_0000_4000_8000_0000_0000_0000u128
}

/// Draws an identifier with `uuid::Uuid::new_v4` and hands out its 128 bits
/// (`Uuid::as_u128`, big-endian).
///
/// Trusted: the outside function fills the identifier with random bits and
/// then fixes the version digit and the variant bits; the contract claims
/// those fixed bits and nothing of the others. It stops the process where the
/// operating system yields no random bytes.
#[verifier::external_body]
pub(crate) fn random_id() -> (id: ItemId)
    ensures
        is_random_id(id),
{
    uuid::Uuid::new_v4().as_u128()
}

} // verus!
