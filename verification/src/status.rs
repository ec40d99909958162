//! The status a poll can be in.

use vstd::prelude::*;

verus! {

/// The current state of one poll.
///
/// The five variants are plain tags: none carries data, and the registry
/// imposes no order in which a poll has to pass through them.
#[derive(Clone, Copy, Debug, PartialEq, Eq, Structural)]
pub enum PollData {
    NoWebtech,
    NotStarted,
    Started,
    Done,
    DoneWebtech,
}

} // verus!
