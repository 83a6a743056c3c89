use vstd::prelude::*;

verus! {

/// The ways a fork-chain resolution can fail. Every error aborts the whole
/// resolution: either a complete `ForkResolution` is produced or nothing is.
#[derive(Clone, Copy, Debug, PartialEq, Eq, Structural)]
pub enum ResolveError {
    /// The input URL is not a two-segment owner/name path on a host.
    InvalidRepoUrl,
    /// No usable credential is configured for a host encountered mid-walk.
    MissingCredential,
    /// Transport, HTTP-status, or payload-shape failure from a single-hop
    /// query.
    ApiRequestFailed,
    /// The API responded but found no matching repository.
    RepositoryNotFound,
}

impl ResolveError {
    /// A short description of the error, for reporting at the process
    /// boundary.
    pub fn describe(&self) -> (msg: &'static str)
        ensures
            *self is InvalidRepoUrl ==> msg@ == "invalid repository url"@,
            *self is MissingCredential ==> msg@ == "missing credential for host"@,
            *self is ApiRequestFailed ==> msg@ == "fork-parent api request failed"@,
            *self is RepositoryNotFound ==> msg@ == "repository not found"@,
    {
        match self {
            ResolveError::InvalidRepoUrl => "invalid repository url",
            ResolveError::MissingCredential => "missing credential for host",
            ResolveError::ApiRequestFailed => "fork-parent api request failed",
            ResolveError::RepositoryNotFound => "repository not found",
        }
    }
}

} // verus!
