//! What a source of events answers when it is drained.

use vstd::prelude::*;

verus! {

/// What is to become of a source once it has nothing more to give.
#[derive(Debug, Clone, Copy, PartialEq, Eq, Structural)]
pub enum SourceInstruction {
    /// Arm it again with the poller.
    Reregister,
    /// Take it away from the poller for good.
    Deregister,
}

/// One answer of a source that is being drained.
#[derive(Debug, PartialEq, Eq, Structural)]
pub enum EventStream<T> {
    /// The next item it holds.
    Emit(T),
    /// It holds no more.
    Drained(SourceInstruction),
}

} // verus!
