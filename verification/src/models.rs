//! Domain identifiers shared across the API surface.

use vstd::prelude::*;

verus! {

/// An organization's identifier: the scope every data operation is
/// filtered by.
#[derive(Debug, Clone, PartialEq, Eq, Hash)]
pub struct OrganizationId(pub String);

} // verus!
