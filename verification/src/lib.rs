//! Core of a process multiplexer: a single-threaded supervisor of child
//! processes, written as a state machine that performs no I/O itself.
//!
//! The caller owns the operating-system resources (the readiness poller, the
//! pipes, the child handles, the signal descriptors). It asks [`Muxer::pump`]
//! what to do next, does it, and hands back what happened. Everything that is
//! decided (which source a readiness token designates, where a line ends,
//! which terminations are still owed to the user) is decided here.

pub mod childout;
pub mod children;
pub mod event;
pub mod laws;
pub mod lines;
pub mod model;
pub mod muxer;
pub mod pid;
pub mod protocol;
pub mod registry;
pub mod report;
pub mod signal;
pub mod source;
pub mod status;
pub mod termination;
mod text;
pub mod wait;

pub use childout::{ChildOut, FdTag, ReadLine};
pub use children::MuxerChild;
pub use event::Event;
pub use muxer::{ChildInfo, Muxer, Spawned, State};
pub use pid::Pid;
pub use protocol::{Fault, Handle, Registration, Reply, Request};
pub use registry::EventSource;
pub use signal::{Signal, SignalSource};
pub use source::{EventStream, SourceInstruction};
pub use status::ExitStatus;
pub use termination::{ChildTerminationSource, Termination};
pub use wait::{Cleanup, Error};
