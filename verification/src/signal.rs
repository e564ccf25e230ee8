//! The source of the signals that ask the multiplexer itself to stop.
//!
//! The source does not read the signal descriptor. Whoever owns it takes a
//! snapshot of the signal numbers that are pending and loads it here; the
//! source hands the signals out one at a time, each once.

use crate::source::{EventStream, SourceInstruction};
use vstd::prelude::*;

verus! {

/// The number of the hangup signal.
pub const SIGHUP: i32 = 1;

/// The number of the interrupt signal.
pub const SIGINT: i32 = 2;

/// The number of the termination signal.
pub const SIGTERM: i32 = 15;

/// A signal that the multiplexer reports to its user.
#[derive(Debug, PartialEq, Eq, Clone, Copy, Structural)]
pub enum Signal {
    Hangup,
    Interrupt,
    Terminate,
}

impl Signal {
    /// The signal with number `n`, if it is one that is reported: `SIGHUP` is
    /// `Hangup`, `SIGINT` is `Interrupt` and `SIGTERM` is `Terminate`.
    pub open spec fn of_signum(n: i32) -> Option<Signal> {
        if n == SIGHUP {
            Some(Signal::Hangup)
        } else if n == SIGINT {
            Some(Signal::Interrupt)
        } else if n == SIGTERM {
            Some(Signal::Terminate)
        } else {
            None
        }
    }

    /// The number under which the operating system delivers the signal.
    pub open spec fn number(self) -> i32 {
        match self {
            Signal::Hangup => SIGHUP,
            Signal::Interrupt => SIGINT,
            Signal::Terminate => SIGTERM,
        }
    }

    /// The signal with number `n`, or `None` for a number that the source
    /// never asks to receive.
    pub fn from_signum(n: i32) -> (r: Option<Signal>)
        ensures
            r == Signal::of_signum(n),
    {
        if n == SIGHUP {
            Some(Signal::Hangup)
        } else if n == SIGINT {
            Some(Signal::Interrupt)
        } else if n == SIGTERM {
            Some(Signal::Terminate)
        } else {
            None
        }
    }

    /// The number under which the operating system delivers the signal.
    pub fn signum(self) -> (n: i32)
        ensures
            n == self.number(),
            Signal::of_signum(n) == Some(self),
    {
        match self {
            Signal::Hangup => SIGHUP,
            Signal::Interrupt => SIGINT,
            Signal::Terminate => SIGTERM,
        }
    }
}

/// The first number of `raw` that is no reported signal, if there is one.
pub open spec fn first_unknown(raw: Seq<i32>) -> Option<i32>
    decreases raw.len(),
{
    if raw.len() == 0 {
        None
    } else if Signal::of_signum(raw[0]).is_none() {
        Some(raw[0])
    } else {
        first_unknown(raw.drop_first())
    }
}

/// `seen`, followed by each signal of `raw` that occurs neither in `seen` nor
/// earlier in `raw`, in the order of `raw`. Numbers that are no reported
/// signal are passed over.
pub open spec fn merged(seen: Seq<Signal>, raw: Seq<i32>) -> Seq<Signal>
    decreases raw.len(),
{
    if raw.len() == 0 {
        seen
    } else {
        let before = merged(seen, raw.drop_last());
        match Signal::of_signum(raw.last()) {
            Some(s) => if before.contains(s) {
                before
            } else {
                before.push(s)
            },
            None => before,
        }
    }
}

/// Merging keeps what was seen, adds every reported signal of the snapshot,
/// adds nothing else, and repeats nothing.
pub proof fn lemma_merged(seen: Seq<Signal>, raw: Seq<i32>)
    ensures
        forall|s: Signal|
            merged(seen, raw).contains(s) <==> seen.contains(s) || exists|i: int|
                0 <= i < raw.len() && Signal::of_signum(#[trigger] raw[i]) == Some(s),
        seen.no_duplicates() ==> merged(seen, raw).no_duplicates(),
        seen.len() <= merged(seen, raw).len(),
        merged(seen, raw).subrange(0, seen.len() as int) == seen,
    decreases raw.len(),
{
    if raw.len() == 0 {
        assert(seen.subrange(0, seen.len() as int) =~= seen);
    } else {
        let front = raw.drop_last();
        let before = merged(seen, front);
        let after = merged(seen, raw);
        lemma_merged(seen, front);
        assert(after.subrange(0, seen.len() as int) =~= before.subrange(0, seen.len() as int));
        assert forall|s: Signal|
            after.contains(s) <==> seen.contains(s) || exists|i: int|
                0 <= i < raw.len() && Signal::of_signum(#[trigger] raw[i]) == Some(s) by {
            let last = raw.len() - 1;
            if after.contains(s) {
                if before.contains(s) {
                    if !seen.contains(s) {
                        let i = choose|i: int|
                            0 <= i < front.len() && Signal::of_signum(#[trigger] front[i]) == Some(
                                s,
                            );
                        assert(raw[i] == front[i]);
                    }
                } else {
                    let k = choose|k: int| 0 <= k < after.len() && after[k] == s;
                    assert(after == before.push(Signal::of_signum(raw[last]).unwrap()));
                    if k < before.len() {
                        assert(before[k] == s);
                    }
                    assert(Signal::of_signum(raw[last]) == Some(s));
                }
            }
            if seen.contains(s) {
                assert(before.contains(s));
                let k = choose|k: int| 0 <= k < before.len() && before[k] == s;
                assert(after[k] == s);
            }
            if exists|i: int| 0 <= i < raw.len() && Signal::of_signum(#[trigger] raw[i]) == Some(s) {
                let i = choose|i: int|
                    0 <= i < raw.len() && Signal::of_signum(#[trigger] raw[i]) == Some(s);
                if i < last {
                    assert(front[i] == raw[i]);
                    assert(before.contains(s));
                    let k = choose|k: int| 0 <= k < before.len() && before[k] == s;
                    assert(after[k] == s);
                } else if !before.contains(s) {
                    assert(after == before.push(s));
                    assert(after[before.len() as int] == s);
                } else {
                    let k = choose|k: int| 0 <= k < before.len() && before[k] == s;
                    assert(after[k] == s);
                }
            }
        }
    }
}

/// A signal source as contracts see it.
pub enum SignalSourceView {
    /// No snapshot is loaded.
    Waiting,
    /// The signals of the loaded snapshot that were not handed out yet.
    Draining(Seq<Signal>),
}

impl SignalSourceView {
    /// The signals that are still to be handed out.
    pub open spec fn remaining(self) -> Seq<Signal> {
        match self {
            SignalSourceView::Waiting => Seq::empty(),
            SignalSourceView::Draining(rest) => rest,
        }
    }

    /// The source after the snapshot `raw` was loaded.
    pub open spec fn loaded(self, raw: Seq<i32>) -> SignalSourceView {
        SignalSourceView::Draining(merged(self.remaining(), raw))
    }

    /// What `next` answers.
    pub open spec fn answer(self) -> EventStream<Signal> {
        if self.remaining().len() > 0 {
            EventStream::Emit(self.remaining()[0])
        } else {
            EventStream::Drained(SourceInstruction::Reregister)
        }
    }

    /// The source after `next`.
    pub open spec fn stepped(self) -> SignalSourceView {
        if self.remaining().len() > 0 {
            SignalSourceView::Draining(self.remaining().drop_first())
        } else {
            SignalSourceView::Waiting
        }
    }
}

/// The source of the reported signals: waiting for a snapshot, or handing
/// one out.
#[derive(Debug)]
pub struct SignalSource {
    /// Whether a snapshot is loaded.
    pub draining: bool,
    /// The signals of the loaded snapshot.
    pub pending: Vec<Signal>,
    /// How many of `pending` have been handed out.
    pub next: usize,
}

impl View for SignalSource {
    type V = SignalSourceView;

    open spec fn view(&self) -> SignalSourceView {
        if self.draining {
            SignalSourceView::Draining(self.pending@.subrange(self.next as int, self.pending.len() as int))
        } else {
            SignalSourceView::Waiting
        }
    }
}

/// Whether `list` holds `s`.
fn holds(list: &Vec<Signal>, s: Signal) -> (found: bool)
    ensures
        found == list@.contains(s),
{
    let mut i: usize = 0;
    while i < list.len()
        invariant
            i <= list.len(),
            forall|j: int| 0 <= j < i ==> list@[j] != s,
        decreases list.len() - i,
    {
        if list[i] == s {
            return true;
        }
        i += 1;
    }
    false
}

impl SignalSource {
    /// The source's invariant: no signal waits twice to be handed out.
    pub open spec fn wf(&self) -> bool {
        &&& self.next <= self.pending.len()
        &&& !self.draining ==> self.pending.len() == 0
        &&& self@.remaining().no_duplicates()
    }

    /// A source that waits for its first snapshot.
    pub fn new() -> (source: SignalSource)
        ensures
            source.wf(),
            source@ == SignalSourceView::Waiting,
    {
        SignalSource { draining: false, pending: Vec::new(), next: 0 }
    }

    /// Whether the source waits for a snapshot.
    pub fn is_waiting(&self) -> (waiting: bool)
        ensures
            waiting == (self@ == SignalSourceView::Waiting),
    {
        !self.draining
    }

    /// Loads a snapshot of the signal numbers that are pending. A number that
    /// is no reported signal is an error: the first such number comes back and
    /// the source is unchanged. Otherwise each signal of the snapshot that
    /// does not wait already is queued once, behind those that wait.
    pub fn load(&mut self, raw: &Vec<i32>) -> (r: Result<(), i32>)
        requires
            old(self).wf(),
        ensures
            final(self).wf(),
            match r {
                Ok(()) => first_unknown(raw@).is_none() && final(self)@ == old(self)@.loaded(raw@),
                Err(n) => first_unknown(raw@) == Some(n) && *final(self) == *old(self),
            },
    {
        let mut i: usize = 0;
        assert(raw@.subrange(0, raw.len() as int) =~= raw@);
        while i < raw.len()
            invariant
                i <= raw.len(),
                self.wf(),
                *self == *old(self),
                first_unknown(raw@) == first_unknown(raw@.subrange(i as int, raw.len() as int)),
            decreases raw.len() - i,
        {
            let ghost rest = raw@.subrange(i as int, raw.len() as int);
            assert(rest.drop_first() =~= raw@.subrange(i + 1, raw.len() as int));
            if Signal::from_signum(raw[i]).is_none() {
                return Err(raw[i]);
            }
            i += 1;
        }
        let ghost seen = self@.remaining();
        let mut queue: Vec<Signal> = Vec::new();
        let mut k: usize = self.next;
        while k < self.pending.len()
            invariant
                *self == *old(self),
                self.next <= k <= self.pending.len(),
                queue@ == self.pending@.subrange(self.next as int, k as int),
            decreases self.pending.len() - k,
        {
            queue.push(self.pending[k]);
            k += 1;
            assert(queue@ =~= self.pending@.subrange(self.next as int, k as int));
        }
        assert(queue@ =~= seen);
        let mut j: usize = 0;
        while j < raw.len()
            invariant
                j <= raw.len(),
                queue@ == merged(seen, raw@.subrange(0, j as int)),
            decreases raw.len() - j,
        {
            let ghost upto = raw@.subrange(0, j + 1);
            assert(upto.drop_last() =~= raw@.subrange(0, j as int));
            match Signal::from_signum(raw[j]) {
                Some(s) => {
                    if !holds(&queue, s) {
                        queue.push(s);
                    }
                },
                None => {},
            }
            j += 1;
        }
        proof {
            assert(raw@.subrange(0, raw.len() as int) =~= raw@);
            lemma_merged(seen, raw@);
        }
        self.pending = queue;
        self.next = 0;
        self.draining = true;
        assert(self.pending@.subrange(0, self.pending.len() as int) =~= self.pending@);
        Ok(())
    }

    /// Hands out the next signal of the loaded snapshot. Once none is left,
    /// or where no snapshot is loaded, the answer is `Drained(Reregister)` and
    /// the source waits for the next snapshot.
    pub fn next(&mut self) -> (r: EventStream<Signal>)
        requires
            old(self).wf(),
        ensures
            final(self).wf(),
            r == old(self)@.answer(),
            final(self)@ == old(self)@.stepped(),
    {
        if self.draining && self.next < self.pending.len() {
            let s = self.pending[self.next];
            self.next = self.next + 1;
            proof {
                let before = old(self)@.remaining();
                assert(self@.remaining() =~= before.drop_first());
                assert(before.drop_first().no_duplicates()) by {
                    assert forall|a: int, b: int|
                        0 <= a < before.len() - 1 && 0 <= b < before.len() - 1 && a != b implies before.drop_first()[a]
                        != before.drop_first()[b] by {
                        assert(before[a + 1] != before[b + 1]);
                    }
                }
            }
            EventStream::Emit(s)
        } else {
            self.draining = false;
            self.pending.clear();
            self.next = 0;
            EventStream::Drained(SourceInstruction::Reregister)
        }
    }
}

} // verus!
