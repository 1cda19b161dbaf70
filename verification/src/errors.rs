use vstd::prelude::*;

verus! {

/// The error taxonomy of the library: every fatal outcome of a store
/// operation or a completion exchange is one of these kinds.
#[derive(Clone, Copy, Debug, PartialEq, Eq, Structural)]
pub enum AgentError {
    /// No credential was supplied; surfaced before any network call is made.
    MissingCredential,
    /// The configured provider is not one this build supports.
    UnsupportedProvider,
    /// The transport reported rate limiting, the retry budget is exhausted,
    /// and the fallback could not be carried out either.
    RateLimited,
    /// A network or protocol failure that is not rate limiting; never retried.
    TransportFailure,
    /// The conversation store failed to open, read or write.
    StorageFailure,
}

} // verus!
