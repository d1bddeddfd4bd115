//! Fresh identifiers for documents, tabs and modals.

use vstd::prelude::*;

verus! {

/// The bits of an identifier that say which kind of UUID it is.
pub const KIND_MASK: u128 = 0x0000_0000_0000_f000_c000_0000_0000_0000;

/// The value of those bits in a random (version 4, RFC variant) UUID.
pub const RANDOM_KIND: u128 = 0x0000_0000_0000_4000_8000_0000_0000_0000;

/// Whether `id` is marked as a random UUID.
pub open spec fn is_random_id(id: u128) -> bool {
    (id & KIND_MASK) == RANDOM_KIND
}

/// `uuid::Uuid::new_v4`, read as a 128-bit number: a random identifier.
/// Nothing is claimed of it but the version and variant bits that every
/// such identifier carries; two calls may return anything, also the same.
#[verifier::external_body]
pub(crate) fn random_id() -> (id: u128)
    ensures
        is_random_id(id),
{
    uuid::Uuid::new_v4().as_u128()
}

} // verus!
