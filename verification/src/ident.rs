//! Identifiers of todo records: the 128 bits of a UUID.

use uuid::Uuid;
use vstd::prelude::*;

verus! {

/// Whether `id` carries the version and variant marks of a random UUID:
/// the version digit is 4 and the two variant bits are `10`.
pub open spec fn is_random_uuid(id: u128) -> bool {
    id & 0x0000_0000_0000_f000_c000_0000_0000_0000u128
        == 0x0000_0000_0000_4000_8000_0000_0000_0000u128
}

/// A random UUID is never the nil UUID, whose bits are all zero.
pub proof fn lemma_random_uuid_is_not_nil(id: u128)
    requires
        is_random_uuid(id),
    ensures
        id != 0,
{
    assert(id & 0x0000_0000_0000_f000_c000_0000_0000_0000u128
        == 0x0000_0000_0000_4000_8000_0000_0000_0000u128 ==> id != 0) by (bit_vector);
}

/// Draws a random UUID with `uuid::Uuid::new_v4` and hands out its bits as
/// `Uuid::as_u128` packs them, most significant byte first.
///
/// Trusted: the result carries the version and variant marks that `new_v4`
/// sets on every UUID it makes. Nothing is claimed about the remaining bits,
/// which come from the operating system's random source; two calls may give
/// the same value. `new_v4` does not return if that source fails.
#[verifier::external_body]
pub(crate) fn random_uuid() -> (id: u128)
    ensures
        is_random_uuid(id),
{
    Uuid::new_v4().as_u128()
}

} // verus!
