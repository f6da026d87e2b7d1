//! Fresh row identifiers. An identifier is the 128-bit value of a UUID, most
//! significant byte first.

use vstd::prelude::*;

verus! {

/// The version nibble of a UUID held as a 128-bit value.
pub open spec fn uuid_version(id: u128) -> u128 {
    (id >> 76u128) & 0xfu128
}

/// The two variant bits of a UUID held as a 128-bit value.
pub open spec fn uuid_variant(id: u128) -> u128 {
    (id >> 62u128) & 0x3u128
}

/// Calls `uuid::Uuid::new_v4` and hands back the UUID's 128-bit value.
/// The crate fills the value from the operating system's random source and
/// then sets the version nibble to 4 and the variant bits to `10`; the
/// contract claims only those two fields, which hold of every outcome. The
/// call panics only when the operating system's random source fails.
#[verifier::external_body]
pub(crate) fn new_random_id() -> (id: u128)
    ensures
        uuid_version(id) == 4,
        uuid_variant(id) == 2,
{
    uuid::Uuid::new_v4().as_u128()
}

} // verus!
