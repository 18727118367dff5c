//! Build-time metadata collection and code generation.
//!
//! The library gathers version-control, project and environment facts into a
//! flat table of named string constants, and renders that table into a single
//! generated source artifact with a derived `version()` summary function.

use vstd::prelude::*;

pub mod channel;
pub mod ci;
pub mod env;
pub mod err;
pub mod gen;
pub mod git;
pub mod project;
pub mod run;
pub mod strings;
pub mod table;

pub use channel::BuildRustChannel;
pub use channel::build_channel;
pub use ci::CIType;
pub use ci::detect;
pub use env::EnvSnapshot;
pub use err::SdResult;
pub use err::ShadowError;

verus! {

/// Reports whether the given build channel is the debug channel.
///
/// Debug mode is the default; release builds report `false`.
pub fn is_debug(channel: BuildRustChannel) -> (r: bool)
    ensures
        r == (channel is Debug),
{
    matches!(channel, BuildRustChannel::Debug)
}

} // verus!
