//! The cluster-secret directory adapter's decisions: the fixed listing
//! query, the translation of the store's outcome, and the port the domain
//! consumes the directory through.
//!
//! The store call itself (a namespace-scoped, asynchronous network
//! listing) belongs to the caller, which performs the query these
//! functions describe and hands the outcome back as plain values.

use vstd::prelude::*;
use crate::auth::{users_map, AuthUsers, SecretRecord};
use crate::errors::DirectoryError;

verus! {

/// Failures specific to the adapter itself. The listing translates store
/// failures into `DirectoryError`, and the adapter adds no failure of its
/// own; the one variant only carries such a translated failure for
/// callers that need the adapter's error type.
#[derive(Debug)]
pub enum Error {
    /// A translated directory-level failure.
    Directory(DirectoryError),
}

/// The parameters of the one listing query the adapter makes.
pub struct ListQuery {
    /// Any of the label selectors may match.
    pub match_any: bool,
    /// The fixed upper bound on the wait for the listing call.
    pub timeout_seconds: u32,
    /// The label that marks which records represent identities, as
    /// opposed to unrelated secrets in the same namespace.
    pub label_selector: String,
}

/// The adapter's fixed listing query: identity records only, with a
/// bounded wait. The timeout is not configurable per call.
pub fn list_params() -> (q: ListQuery)
    ensures
        q.match_any,
        q.timeout_seconds == 60,
        q.label_selector@ == "kubernetes.io/lifecycle=spot"@,
{
    ListQuery {
        match_any: true,
        timeout_seconds: 60,
        label_selector: String::from_str("kubernetes.io/lifecycle=spot"),
    }
}

/// Turns the outcome of the bounded store query into the port's result: a
/// returned record set becomes exactly the directory those records stand
/// for, and any store failure — unreachable, unauthorized, or timed out —
/// becomes one directory-level error carrying the failure's description,
/// with no partial directory beside it.
pub fn list_outcome(outcome: Result<Vec<SecretRecord>, String>) -> (r: Result<
    AuthUsers,
    DirectoryError,
>)
    ensures
        outcome matches Ok(records) ==> (r matches Ok(users) && users@ == users_map(records@)),
        outcome matches Err(cause) ==> (r matches Err(e) && e.cause@ == cause@),
{
    match outcome {
        Ok(records) => Ok(AuthUsers::from_records(&records)),
        Err(cause) => Err(DirectoryError { cause }),
    }
}

/// The identity directory port: one abstract listing operation, so the
/// domain never depends on a concrete store's types. A store-backed
/// implementation performs the query of `list_params` and translates its
/// outcome as `list_outcome` does.
pub trait AuthKubeSecretPort {
    /// Lists all identity records as one point-in-time snapshot, or fails
    /// with one directory-level error.
    fn list(&self) -> Result<AuthUsers, DirectoryError>;
}

/// An in-memory implementation of the port, backed by a fixed set of
/// records: what a caller exercises the authentication flow against
/// without a cluster.
pub struct MemorySecrets {
    /// The records the fake store holds.
    pub records: Vec<SecretRecord>,
}

impl MemorySecrets {
    /// The directory snapshot the held records stand for.
    pub fn snapshot(&self) -> (r: AuthUsers)
        ensures
            r@ == users_map(self.records@),
    {
        AuthUsers::from_records(&self.records)
    }
}

impl AuthKubeSecretPort for MemorySecrets {
    fn list(&self) -> Result<AuthUsers, DirectoryError> {
        Ok(self.snapshot())
    }
}

} // verus!
