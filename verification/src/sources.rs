//! The source contract: where raw data comes from.

use crate::error::Error;
use vstd::prelude::*;

verus! {

/// What a source says when asked whether its data changed.
#[derive(Clone, Copy, Debug, PartialEq, Eq, Structural)]
pub enum SourceCheck {
    /// There may be new data: fetch it.
    Changed,
    /// Nothing changed since the version that was handed in.
    Unchanged,
}

/// A source of raw data, owned by someone else.
///
/// The engine asks `check` first and fetches only when the answer is
/// [`SourceCheck::Changed`]. A fetch hands out the raw data together with its
/// version. Equal data must come with an equal version for as long as one engine
/// lives; beyond that a version means nothing to the engine.
pub trait ConfigSource {
    /// The raw data that the source hands out.
    type Raw;

    /// Whether the data may differ from the version that was published last.
    fn check(&self, last_version: &Option<u128>) -> SourceCheck;

    /// The raw data and its version.
    fn fetch(&self) -> Result<(u128, Self::Raw), Error>;
}

/// The answer of a source that tells change by a marker, such as a time of last
/// modification, and hands the marker out as its version: nothing changed exactly
/// when the marker is the version in place.
pub fn check_marker(last_version: &Option<u128>, marker: u128) -> (answer: SourceCheck)
    ensures
        answer == if *last_version == Some(marker) {
            SourceCheck::Unchanged
        } else {
            SourceCheck::Changed
        },
{
    match last_version {
        Some(last) => if *last == marker {
            SourceCheck::Unchanged
        } else {
            SourceCheck::Changed
        },
        None => SourceCheck::Changed,
    }
}

} // verus!
