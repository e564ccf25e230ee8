//! The event pump as a state machine: what each reply of the driver makes of
//! the multiplexer's state, and what the multiplexer asks for next.

use crate::childout::{ChildOutView, FdTag};
use crate::children::MuxerChildView;
use crate::event::EventView;
use crate::pid::Pid;
use crate::protocol::{Fault, Handle, Registration, ReplyView, RequestView};
use crate::registry::SourceView;
use crate::signal::{first_unknown, SignalSourceView};
use crate::source::{EventStream, SourceInstruction};
use crate::status::ExitStatus;
use crate::termination::{TerminationView, Ward};
use vstd::prelude::*;
use vstd::utf8::{decode_utf8, valid_utf8};

verus! {

/// Where the pump stands.
pub enum StateView {
    /// No work is known: the next thing is a readiness token, or a poll.
    Awaiting,
    /// The termination source is out of the registry and the driver has been
    /// asked which children ended.
    Reaping,
    /// The stream is out of the registry and is read until it would block or
    /// ends.
    DrainingChildOut(ChildOutView),
    /// The stream has ended; its closing is still to be reported.
    Closing(ChildOutView),
    /// Terminations that were collected are reported one by one.
    DrainingChildTerminated,
    /// The signal source is out of the registry and hands out its signals.
    DrainingSignals(SignalSourceView),
}

/// The multiplexer as contracts see it.
pub struct MuxerView {
    /// The children that are alive as far as is known, by pid.
    pub children: Map<u32, MuxerChildView>,
    /// The terminations that were collected and not reported yet. The last
    /// one is reported first.
    pub waits: Seq<TerminationView>,
    /// The exit statuses that were published, by ticket.
    pub statuses: Seq<Option<ExitStatus>>,
    /// The registered sources, by token.
    pub sources: Map<usize, SourceView>,
    /// Where the pump stands.
    pub state: StateView,
    /// The readiness tokens that were reported and not looked at yet. The
    /// last one is looked at first.
    pub pending: Seq<usize>,
}

/// What one step of the pump comes to.
pub struct Outcome {
    pub next: MuxerView,
    pub request: RequestView,
}

impl Outcome {
    /// The outcome made of a state and a request.
    pub open spec fn of(next: MuxerView, request: RequestView) -> Outcome {
        Outcome { next, request }
    }
}

impl MuxerView {
    /// A multiplexer that holds nothing.
    pub open spec fn empty() -> MuxerView {
        MuxerView {
            children: Map::empty(),
            waits: Seq::empty(),
            statuses: Seq::empty(),
            sources: Map::empty(),
            state: StateView::Awaiting,
            pending: Seq::empty(),
        }
    }

    /// Whether `regs` are the registrations of a new multiplexer: the
    /// termination source under token 0 and, where signals are reported, the
    /// signal source under another token.
    pub open spec fn initial_registrations(signals: bool, regs: Seq<Registration>) -> bool {
        &&& regs.len() == if signals { 2int } else { 1int }
        &&& regs[0] == Registration { source: Handle::Reaper, token: 0 }
        &&& signals ==> regs[1].source == Handle::Signals && regs[1].token != 0
    }

    /// A new multiplexer whose sources are registered as `regs` say.
    pub open spec fn initial(signals: bool, regs: Seq<Registration>) -> MuxerView {
        let base = MuxerView::empty().with_source(regs[0].token, SourceView::ChildTerminated);
        if signals {
            base.with_source(
                regs[1].token,
                SourceView::ReceivedSignal(SignalSourceView::Waiting),
            )
        } else {
            base
        }
    }

    /// A new multiplexer keeps the invariant and owes nothing.
    pub proof fn lemma_initial(signals: bool, regs: Seq<Registration>)
        ensures
            MuxerView::initial(signals, regs).inv(),
            MuxerView::initial(signals, regs).waits.len() == 0,
            MuxerView::initial(signals, regs).children.dom() == Set::<u32>::empty(),
            MuxerView::initial(signals, regs).state == StateView::Awaiting,
    {
    }

    /// What is published under `ticket`.
    pub open spec fn published(self, ticket: usize) -> Option<ExitStatus> {
        if ticket < self.statuses.len() {
            self.statuses[ticket as int]
        } else {
            None
        }
    }

    /// Whether a termination of `pid` is still owed to the user: it is a
    /// live child, or its termination is queued.
    pub open spec fn owes(self, pid: Pid) -> bool {
        self.children.contains_key(pid.inner) || exists|i: int|
            0 <= i < self.waits.len() && (#[trigger] self.waits[i]).pid == pid
    }

    /// The invariant of the children, the queued terminations and the
    /// published statuses.
    pub open spec fn inv(self) -> bool {
        self.ward().inv()
    }

    /// The multiplexer with a stream registered as `reg` says, for the `tag`
    /// output of the child `pid`; unchanged where there is no registration.
    pub open spec fn with_stream(
        self,
        reg: Option<Registration>,
        pid: Pid,
        prog_path: Seq<char>,
        tag: FdTag,
    ) -> MuxerView {
        match reg {
            Some(Registration { source: Handle::Pipe(fd), token }) => self.with_source(
                token,
                SourceView::ReadableChild(ChildOutView::fresh(fd, pid, prog_path, tag)),
            ),
            _ => self,
        }
    }

    /// Whether `out` and `err` are registrations for the captured pipes
    /// `stdout` and `stderr`: one for each pipe that is captured, under tokens
    /// that are not in use and differ.
    pub open spec fn spawn_registrations(
        self,
        stdout: Option<i32>,
        stderr: Option<i32>,
        out: Option<Registration>,
        err: Option<Registration>,
    ) -> bool {
        &&& match stdout {
            Some(fd) => out matches Some(r) && r.source == Handle::Pipe(fd)
                && !self.sources.contains_key(r.token),
            None => out.is_none(),
        }
        &&& match stderr {
            Some(fd) => err matches Some(r) && r.source == Handle::Pipe(fd)
                && !self.sources.contains_key(r.token) && (out matches Some(o) ==> o.token
                != r.token),
            None => err.is_none(),
        }
    }

    /// The multiplexer after it took charge of the child `pid` running
    /// `prog_path`, whose captured pipes are registered as `out` and `err`
    /// say. The child's ticket is the next free one.
    pub open spec fn spawned(
        self,
        pid: Pid,
        prog_path: Seq<char>,
        out: Option<Registration>,
        err: Option<Registration>,
    ) -> MuxerView {
        let streams = self.with_stream(out, pid, prog_path, FdTag::Stdout).with_stream(
            err,
            pid,
            prog_path,
            FdTag::Stderr,
        );
        MuxerView {
            children: self.children.insert(
                pid.inner,
                MuxerChildView { pid, prog_path, ticket: self.statuses.len() as usize },
            ),
            statuses: self.statuses.push(None),
            ..streams
        }
    }

    /// The multiplexer without the source under the token of `reg`, if there
    /// is a registration.
    pub open spec fn without(self, reg: Option<Registration>) -> MuxerView {
        match reg {
            Some(r) => MuxerView { sources: self.sources.remove(r.token), ..self },
            None => self,
        }
    }

    /// The multiplexer after a spawn was given up: the sources under the
    /// tokens of `out` and `err` are gone, and so is the child `pid` if it
    /// holds `ticket`.
    pub open spec fn abandoned(
        self,
        pid: Pid,
        ticket: usize,
        out: Option<Registration>,
        err: Option<Registration>,
    ) -> MuxerView {
        let bare = self.without(out).without(err);
        if self.children.contains_key(pid.inner) && self.children[pid.inner].ticket == ticket {
            MuxerView { children: self.children.remove(pid.inner), ..bare }
        } else {
            bare
        }
    }

    /// Giving up a spawn keeps the invariant.
    pub proof fn lemma_abandoned_inv(
        self,
        pid: Pid,
        ticket: usize,
        out: Option<Registration>,
        err: Option<Registration>,
    )
        requires
            self.inv(),
        ensures
            self.abandoned(pid, ticket, out, err).inv(),
    {
        let after = self.abandoned(pid, ticket, out, err).ward();
        assert(after.waits == self.waits);
        assert(after.statuses == self.statuses);
        assert forall|p: u32| #[trigger] after.children.contains_key(p) implies {
            &&& after.children[p].pid.inner == p
            &&& after.children[p].ticket < after.statuses.len()
            &&& after.statuses[after.children[p].ticket as int].is_none()
        } by {
            assert(self.children.contains_key(p));
        }
        assert forall|p: u32, q: u32|
            #![trigger after.children[p], after.children[q]]
            after.children.contains_key(p) && after.children.contains_key(q) && p
                != q implies after.children[p].ticket != after.children[q].ticket by {
            assert(self.children.contains_key(p));
            assert(self.children.contains_key(q));
        }
    }

    /// Giving up a spawn undoes it: where the child's pid was not in use,
    /// the children and the sources are as they were before the spawn. Only
    /// the ticket stays issued.
    pub proof fn law_abandon_undoes_spawn(
        self,
        pid: Pid,
        prog_path: Seq<char>,
        stdout: Option<i32>,
        stderr: Option<i32>,
        out: Option<Registration>,
        err: Option<Registration>,
    )
        requires
            self.spawn_registrations(stdout, stderr, out, err),
            !self.children.contains_key(pid.inner),
            self.statuses.len() <= usize::MAX,
        ensures
            self.spawned(pid, prog_path, out, err).abandoned(
                pid,
                self.statuses.len() as usize,
                out,
                err,
            ) == (MuxerView { statuses: self.statuses.push(None), ..self }),
    {
        let after = self.spawned(pid, prog_path, out, err).abandoned(
            pid,
            self.statuses.len() as usize,
            out,
            err,
        );
        assert(after.sources =~= self.sources);
        assert(after.children =~= self.children);
    }

    /// Taking charge of a child keeps the invariant.
    pub proof fn lemma_spawned_inv(
        self,
        pid: Pid,
        prog_path: Seq<char>,
        out: Option<Registration>,
        err: Option<Registration>,
    )
        requires
            self.inv(),
            self.statuses.len() <= usize::MAX,
        ensures
            self.spawned(pid, prog_path, out, err).inv(),
    {
        let after = self.spawned(pid, prog_path, out, err).ward();
        let before = self.ward();
        assert(after.waits == before.waits);
        assert forall|i: int| 0 <= i < after.waits.len() implies {
            &&& (#[trigger] after.waits[i]).ticket < after.statuses.len()
            &&& after.statuses[after.waits[i].ticket as int] == Some(after.waits[i].exit_status)
        } by {
            assert(before.waits[i].ticket < before.statuses.len());
        }
        assert forall|p: u32| #[trigger] after.children.contains_key(p) implies {
            &&& after.children[p].pid.inner == p
            &&& after.children[p].ticket < after.statuses.len()
            &&& after.statuses[after.children[p].ticket as int].is_none()
        } by {
            if p != pid.inner {
                assert(before.children.contains_key(p));
            }
        }
        assert forall|p: u32, q: u32|
            #![trigger after.children[p], after.children[q]]
            after.children.contains_key(p) && after.children.contains_key(q) && p
                != q implies after.children[p].ticket != after.children[q].ticket by {
            if p != pid.inner {
                assert(before.children.contains_key(p));
            }
            if q != pid.inner {
                assert(before.children.contains_key(q));
            }
        }
    }

    /// Reporting the last queued termination keeps the invariant.
    pub proof fn lemma_reported_inv(self)
        requires
            self.inv(),
            self.waits.len() > 0,
        ensures
            (MuxerView { waits: self.waits.drop_last(), ..self }).inv(),
    {
        let after = (MuxerView { waits: self.waits.drop_last(), ..self }).ward();
        assert forall|i: int| 0 <= i < after.waits.len() implies {
            &&& (#[trigger] after.waits[i]).ticket < after.statuses.len()
            &&& after.statuses[after.waits[i].ticket as int] == Some(after.waits[i].exit_status)
        } by {
            assert(after.waits[i] == self.waits[i]);
        }
    }

    /// Accounting for ended children keeps the invariant.
    pub proof fn lemma_handled_inv(self, signalled: bool, exits: Seq<(Pid, ExitStatus)>)
        requires
            self.inv(),
        ensures
            self.with_ward(self.ward().handled(signalled, exits)).inv(),
    {
        self.ward().lemma_reap_all_inv(exits);
        assert(self.with_ward(self.ward().handled(signalled, exits)).ward() == self.ward().handled(
            signalled,
            exits,
        ));
    }

    /// The multiplexer in another state of the pump.
    pub open spec fn at(self, state: StateView) -> MuxerView {
        MuxerView { state, ..self }
    }

    /// The multiplexer with `source` registered under `token`.
    pub open spec fn with_source(self, token: usize, source: SourceView) -> MuxerView {
        MuxerView { sources: self.sources.insert(token, source), ..self }
    }

    /// The three parts that a reaping works on.
    pub open spec fn ward(self) -> Ward {
        Ward { children: self.children, waits: self.waits, statuses: self.statuses }
    }

    /// The multiplexer with those three parts replaced.
    pub open spec fn with_ward(self, ward: Ward) -> MuxerView {
        MuxerView {
            children: ward.children,
            waits: ward.waits,
            statuses: ward.statuses,
            ..self
        }
    }

    /// The next step of a stream that is being drained: its next line is
    /// delivered; if it has none, it is read again, or, once it has ended,
    /// taken away from the poller.
    pub open spec fn drain_stream(self, c: ChildOutView) -> Outcome {
        match c.next_line() {
            Some(bytes) => Outcome {
                next: self.at(StateView::DrainingChildOut(c.advanced())),
                request: if valid_utf8(bytes) {
                    RequestView::Deliver(
                        EventView::ChildWrote {
                            pid: c.pid,
                            prog_path: c.prog_path,
                            tag: c.tag,
                            line: decode_utf8(bytes),
                        },
                    )
                } else {
                    RequestView::Fault(Fault::InvalidUtf8)
                },
            },
            None => if c.closed {
                Outcome {
                    next: self.at(StateView::Closing(c.advanced())),
                    request: RequestView::Deregister(Handle::Pipe(c.fd)),
                }
            } else {
                Outcome {
                    next: self.at(StateView::DrainingChildOut(c)),
                    request: RequestView::Read { fd: c.fd },
                }
            },
        }
    }

    /// The next step of the signal source that is being drained. `vacant` is
    /// the token that the registry would give out next.
    pub open spec fn drain_signals(self, s: SignalSourceView, vacant: usize) -> Outcome {
        if s == SignalSourceView::Waiting {
            Outcome { next: self.at(StateView::DrainingSignals(s)), request: RequestView::Snapshot }
        } else {
            match s.answer() {
                EventStream::Emit(signal) => Outcome {
                    next: self.at(StateView::DrainingSignals(s.stepped())),
                    request: RequestView::Deliver(EventView::SignalReceived { signal }),
                },
                EventStream::Drained(SourceInstruction::Reregister) => Outcome {
                    next: self.with_source(vacant, SourceView::ReceivedSignal(s.stepped())).at(
                        StateView::Awaiting,
                    ),
                    request: RequestView::Reregister(
                        Registration { source: Handle::Signals, token: vacant },
                    ),
                },
                EventStream::Drained(SourceInstruction::Deregister) => Outcome {
                    next: self.at(StateView::Awaiting),
                    request: RequestView::Deregister(Handle::Signals),
                },
            }
        }
    }

    /// The next step where no work is known: the last pending token is taken
    /// and its source leaves the registry to be drained; without a pending
    /// token the poller is asked.
    pub open spec fn dispatch(self, vacant: usize) -> Outcome {
        if self.pending.len() == 0 {
            Outcome { next: self.at(StateView::Awaiting), request: RequestView::Poll }
        } else {
            let token = self.pending.last();
            let rest = MuxerView {
                pending: self.pending.drop_last(),
                state: StateView::Awaiting,
                ..self
            };
            if !self.sources.contains_key(token) {
                Outcome { next: rest, request: RequestView::Fault(Fault::UnknownToken(token)) }
            } else {
                let taken = MuxerView { sources: self.sources.remove(token), ..rest };
                match self.sources[token] {
                    SourceView::ChildTerminated => Outcome {
                        next: taken.at(StateView::Reaping),
                        request: RequestView::Reap,
                    },
                    SourceView::ReadableChild(c) => taken.drain_stream(c),
                    SourceView::ReceivedSignal(s) => taken.drain_signals(s, token),
                }
            }
        }
    }

    /// What the multiplexer asks for from where it stands.
    pub open spec fn settle(self, vacant: usize) -> Outcome {
        match self.state {
            StateView::Awaiting => self.dispatch(vacant),
            StateView::Reaping => Outcome { next: self, request: RequestView::Reap },
            StateView::DrainingChildOut(c) => self.drain_stream(c),
            StateView::Closing(c) => Outcome {
                next: self.at(StateView::Awaiting),
                request: RequestView::Deliver(
                    EventView::FdClosed { pid: c.pid, prog_path: c.prog_path, tag: c.tag },
                ),
            },
            StateView::DrainingChildTerminated => if self.waits.len() == 0 {
                self.dispatch(vacant)
            } else {
                let t = self.waits.last();
                Outcome {
                    next: MuxerView { waits: self.waits.drop_last(), ..self },
                    request: RequestView::Deliver(
                        EventView::ChildTerminated {
                            pid: t.pid,
                            prog_path: t.prog_path,
                            exit_status: t.exit_status,
                        },
                    ),
                }
            },
            StateView::DrainingSignals(s) => self.drain_signals(s, vacant),
        }
    }

    /// The outcome of a reply that answers nothing the multiplexer waits for.
    pub open spec fn refuse(self) -> Outcome {
        Outcome { next: self, request: RequestView::Fault(Fault::UnexpectedReply) }
    }

    /// One step of the pump: what `reply` makes of the multiplexer, and what
    /// it asks for next. `vacant` is the token that the registry would give
    /// out next.
    pub open spec fn step(self, vacant: usize, reply: ReplyView) -> Outcome {
        match reply {
            ReplyView::Resume => self.settle(vacant),
            ReplyView::Interrupted => self.settle(vacant),
            ReplyView::Ready(tokens) => match self.state {
                StateView::Awaiting => MuxerView { pending: self.pending + tokens, ..self }.settle(
                    vacant,
                ),
                _ => self.refuse(),
            },
            ReplyView::Failed => match self.state {
                StateView::Awaiting => Outcome {
                    next: self,
                    request: RequestView::Fault(Fault::Poll),
                },
                StateView::DrainingChildOut(_) => Outcome {
                    next: self,
                    request: RequestView::Fault(Fault::Read),
                },
                _ => self.refuse(),
            },
            ReplyView::WouldBlock => match self.state {
                StateView::DrainingChildOut(c) => Outcome {
                    next: self.with_source(vacant, SourceView::ReadableChild(c)).at(
                        StateView::Awaiting,
                    ),
                    request: RequestView::Reregister(
                        Registration { source: Handle::Pipe(c.fd), token: vacant },
                    ),
                },
                _ => self.refuse(),
            },
            ReplyView::Bytes(bytes) => match self.state {
                StateView::DrainingChildOut(c) => self.drain_stream(
                    if bytes.len() == 0 {
                        c.shut()
                    } else {
                        c.fed(bytes)
                    },
                ),
                _ => self.refuse(),
            },
            ReplyView::Reaped { signalled, exits } => match self.state {
                StateView::Reaping => Outcome {
                    next: self.with_ward(self.ward().handled(signalled, exits)).with_source(
                        vacant,
                        SourceView::ChildTerminated,
                    ).at(StateView::DrainingChildTerminated),
                    request: RequestView::Reregister(
                        Registration { source: Handle::Reaper, token: vacant },
                    ),
                },
                _ => self.refuse(),
            },
            ReplyView::Snapshot(raw) => match self.state {
                StateView::DrainingSignals(s) => match first_unknown(raw) {
                    Some(n) => Outcome {
                        next: self,
                        request: RequestView::Fault(Fault::UnexpectedSignal(n)),
                    },
                    None => self.drain_signals(s.loaded(raw), vacant),
                },
                _ => self.refuse(),
            },
        }
    }
}

} // verus!
