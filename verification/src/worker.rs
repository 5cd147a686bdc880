//! The commands the text protocol hands to the worker driving the engine.
//! The worker loop itself, with its channels and threads, lives outside
//! the library; it wraps these plain values.

use vstd::prelude::*;

verus! {

/// An engine-control command parsed from the text protocol.
#[derive(Clone, Copy, Debug, PartialEq, Eq, Structural)]
pub enum Command {
    Ready,
    StartPos,
    Go,
    Stop,
    Quit,
}

} // verus!
