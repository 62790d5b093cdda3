//! Error taxonomy of the registry.
//!
//! Every fallible operation reports one of these errors; the contracts of the
//! operations say exactly on which inputs each error is returned.
use vstd::prelude::*;

verus! {

/// The field of a listing request that failed validation.
#[derive(Clone, Copy, Debug, PartialEq, Eq, Structural)]
pub enum Field {
    Slug,
    Title,
    Oneliner,
    Description,
    Guardians,
}

/// Errors reported by the registry's synchronous operations.
#[derive(Clone, Copy, Debug, PartialEq, Eq, Structural)]
pub enum RegistryError {
    /// A field of the request breaks a length or shape bound.
    ValidationError(Field),
    /// A uniqueness constraint (slug, endpoint account, category name) is violated.
    ConflictError,
    /// The caller lacks the required role or ownership.
    AccessDeniedError,
    /// The attached deposit does not cover the listing fee.
    PaymentRequiredError,
    /// An attempt to change the immutable endpoint account of a listing.
    ImmutableFieldError,
    /// No record exists under the given id, slug or account.
    NotFoundError,
}

} // verus!
