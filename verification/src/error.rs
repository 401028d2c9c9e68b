//! Errors reported by film construction, merging and export planning.

use vstd::prelude::*;
use crate::channel::ChannelKind;

verus! {

/// Every failure the renderer core can report. Concurrency-protocol
/// violations (merging a tile built for another epoch) are not here: they
/// are ruled out by the contracts rather than reported.
#[derive(Clone, Copy, PartialEq, Eq, Structural, Debug)]
pub enum FilmError {
    /// The same channel kind was requested twice at film construction.
    DuplicateChannel(ChannelKind),
    /// A tile channel's kind differs from the film channel it merges into.
    ChannelMismatch,
    /// Export asked for a channel the film does not hold.
    MissingChannel(ChannelKind),
    /// Export of the color output needs an alpha (transparent background)
    /// or can use a background channel, and the film holds too few of them.
    InsufficientColorChannels,
}

impl FilmError {
    /// A human-readable description, for the program around the library to
    /// print; the library itself never formats text.
    pub fn describe(&self) -> (r: &'static str)
        ensures
            (self is DuplicateChannel ==> r@ == "attempted to create multiple channels of one kind"@),
            (self is ChannelMismatch ==> r@ == "tile channel kind does not match film channel kind"@),
            (self is MissingChannel ==> r@ == "attempted to write a channel that does not exist"@),
            (self is InsufficientColorChannels ==> r@
                == "attempted to write the color channel with insufficient channels"@),
    {
        match self {
            FilmError::DuplicateChannel(_) => "attempted to create multiple channels of one kind",
            FilmError::ChannelMismatch => "tile channel kind does not match film channel kind",
            FilmError::MissingChannel(_) => "attempted to write a channel that does not exist",
            FilmError::InsufficientColorChannels => "attempted to write the color channel with insufficient channels",
        }
    }
}

} // verus!
