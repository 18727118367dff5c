//! The discriminated error type every fatal condition is propagated as.

use vstd::prelude::*;

verus! {

/// A fatal condition of one generation pass.
///
/// Missing branch or tag information is never an error; it is modelled as an
/// optional entry that renders as an empty string.
#[derive(Clone, Copy, Debug, PartialEq, Eq, Structural)]
pub enum ShadowError {
    /// A required environment variable (a path) is absent.
    EnvironmentVariableMissing,
    /// The source path is not a usable repository, or it has no commit yet.
    RepositoryUnavailable,
    /// The destination file cannot be created or written.
    IoFailure,
    /// A fact's value contains the verbatim-quote closing delimiter and would
    /// corrupt the generated artifact.
    ValueDelimiterCollision,
}

/// The result type of the fallible operations of this crate.
pub type SdResult<T> = Result<T, ShadowError>;

} // verus!
