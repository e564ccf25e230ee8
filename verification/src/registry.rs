//! The registry of sources: which source each readiness token designates.
//!
//! The registry is a slab. Verus does not read the slab's code: what this
//! module states of it is taken from its source and believed.

use crate::childout::{ChildOut, ChildOutView};
use crate::signal::{SignalSource, SignalSourceView};
use crate::termination::ChildTerminationSource;
use slab::Slab;
use vstd::prelude::*;

verus! {

/// A source that can be registered with the poller.
#[derive(Debug)]
pub enum EventSource {
    ReadableChild(ChildOut),
    ChildTerminated(ChildTerminationSource),
    ReceivedSignal(SignalSource),
}

/// A source as contracts see it.
pub enum SourceView {
    ReadableChild(ChildOutView),
    ChildTerminated,
    ReceivedSignal(SignalSourceView),
}

impl View for EventSource {
    type V = SourceView;

    open spec fn view(&self) -> SourceView {
        match self {
            EventSource::ReadableChild(c) => SourceView::ReadableChild(c@),
            EventSource::ChildTerminated(_) => SourceView::ChildTerminated,
            EventSource::ReceivedSignal(s) => SourceView::ReceivedSignal(s@),
        }
    }
}

impl EventSource {
    /// The invariant of whichever source this is.
    pub open spec fn wf(&self) -> bool {
        match self {
            EventSource::ReadableChild(c) => c.wf(),
            EventSource::ChildTerminated(_) => true,
            EventSource::ReceivedSignal(s) => s.wf(),
        }
    }
}

/// `slab::Slab`, of which Verus knows only what the items below state.
#[verifier::external_type_specification]
#[verifier::external_body]
#[verifier::reject_recursive_types(T)]
pub struct ExSlab<T>(Slab<T>);

/// The sources that a registry holds, each under its token.
pub uninterp spec fn slab_entries(slab: Slab<EventSource>) -> Map<usize, EventSource>;

/// What `Slab::vacant_key` returns: the token that the next insertion uses.
pub uninterp spec fn slab_vacant_key(slab: Slab<EventSource>) -> usize;

/// An empty registry.
///
/// Trusted: `Slab::new` makes a slab without entries whose next key is 0.
#[verifier::external_body]
pub(crate) fn slab_new() -> (slab: Slab<EventSource>)
    ensures
        slab_entries(slab).dom() == Set::<usize>::empty(),
        slab_vacant_key(slab) == 0,
{
    Slab::new()
}

/// The token that the next insertion will use.
///
/// Trusted: `Slab::vacant_key` returns the slab's next key, and no value is
/// stored under that key.
#[verifier::external_body]
pub(crate) fn slab_vacant(slab: &Slab<EventSource>) -> (key: usize)
    ensures
        key == slab_vacant_key(*slab),
        !slab_entries(*slab).contains_key(key),
{
    slab.vacant_key()
}

/// Whether a source is registered under `key`.
///
/// Trusted: `Slab::contains` says whether a value is stored under the key.
#[verifier::external_body]
pub(crate) fn slab_contains(slab: &Slab<EventSource>, key: usize) -> (found: bool)
    ensures
        found == slab_entries(*slab).contains_key(key),
{
    slab.contains(key)
}

/// Registers `source` and returns its token.
///
/// Trusted: `Slab::insert` stores the value under the key that `vacant_key`
/// announced, returns that key and leaves every other entry as it was; no
/// value was stored under that key before, and none is stored under the key
/// that is next afterwards. It panics only when the slab's storage would
/// exceed `isize::MAX` bytes, which no process reaches before it runs out of
/// memory.
#[verifier::external_body]
pub(crate) fn slab_insert(slab: &mut Slab<EventSource>, source: EventSource) -> (key: usize)
    ensures
        key == slab_vacant_key(*old(slab)),
        !slab_entries(*old(slab)).contains_key(key),
        slab_entries(*final(slab)) == slab_entries(*old(slab)).insert(key, source),
        !slab_entries(*final(slab)).contains_key(slab_vacant_key(*final(slab))),
{
    slab.insert(source)
}

/// Takes the source registered under `key` out of the registry.
///
/// Trusted: for a key under which a value is stored, `Slab::remove` returns
/// that value, leaves every other entry as it was, and makes the key the
/// next one to be used. (For another key it panics: such keys are left out.)
#[verifier::external_body]
pub(crate) fn slab_remove(slab: &mut Slab<EventSource>, key: usize) -> (source: EventSource)
    requires
        slab_entries(*old(slab)).contains_key(key),
    ensures
        source == slab_entries(*old(slab))[key],
        slab_entries(*final(slab)) == slab_entries(*old(slab)).remove(key),
        slab_vacant_key(*final(slab)) == key,
{
    slab.remove(key)
}

} // verus!
