use vstd::prelude::*;

verus! {

/// The failure taxonomy of the cart service.
///
/// Each variant names a cause; the transport layer around the library owns
/// the mapping from variant to protocol status, so nothing here speaks of
/// status codes.
#[derive(Clone, Copy, PartialEq, Eq, Structural, Debug)]
pub enum AppError {
    /// The user identifier does not name an existing customer.
    CustomerNotFound,
    /// A cart line references a product unknown to the product authority.
    ProductNotFound,
    /// No cart with the addressed (user, cart number) pair exists.
    CartNotFound,
    /// The discount code resolved to a record whose validity window does not
    /// contain the current instant. Distinct from an unknown code, which is
    /// tolerated silently.
    DiscountPeriod,
    /// An external service call failed for a reason other than a clean
    /// not-found; surfaced generically.
    Upstream,
    /// The storage layer could not commit: connection, constraint, or
    /// key-space exhaustion.
    Storage,
    /// An internal invariant was violated, such as a stored discount
    /// reference that the discount authority no longer knows.
    Misconfiguration,
}

} // verus!
