//! Identifiers of newsletter issues.

use uuid::Uuid;
use vstd::prelude::*;

verus! {

/// `uuid::Uuid`, the identifier of an issue. Its bytes are never looked at
/// here: an identifier is stored, handed on and compared.
#[verifier::external_type_specification]
#[verifier::external_body]
pub struct ExUuid(uuid::Uuid);

/// Compares two issue identifiers with `Uuid`'s own `==`, which compares the
/// sixteen bytes of the two identifiers. The contract takes that comparison
/// to agree with equality of the identifiers as values.
#[verifier::external_body]
pub(crate) fn same_issue(a: &Uuid, b: &Uuid) -> (same: bool)
    ensures
        same == (*a == *b),
{
    *a == *b
}

} // verus!
