//! Identifiers carried through the library.
use vstd::prelude::*;

verus! {

/// `uuid::Uuid`, carried opaquely.
#[verifier::external_type_specification]
#[verifier::external_body]
pub struct ExUuid(uuid::Uuid);

/// Compares two identifiers with `uuid::Uuid`'s `==`, which compares their
/// sixteen bytes: equal exactly when they are the same identifier.
#[verifier::external_body]
pub(crate) fn uuid_eq(a: &uuid::Uuid, b: &uuid::Uuid) -> (r: bool)
    ensures
        r == (*a == *b),
{
    a == b
}

} // verus!
