//! Build channel (profile) classification.

use vstd::prelude::*;

verus! {

/// The build profile the consuming project is compiled under.
#[derive(Clone, Copy, Debug, PartialEq, Eq, Structural)]
pub enum BuildRustChannel {
    Debug,
    Release,
}

/// Classifies a profile string as a build channel.
///
/// Only the exact string `release` selects the release channel; anything
/// else (including an empty string) falls back to the debug default.
pub fn build_channel(profile: &str) -> (r: BuildRustChannel)
    ensures
        r == (if profile@ == "release"@ {
            BuildRustChannel::Release
        } else {
            BuildRustChannel::Debug
        }),
{
    if crate::strings::str_eq(profile, "release") {
        BuildRustChannel::Release
    } else {
        BuildRustChannel::Debug
    }
}

} // verus!
