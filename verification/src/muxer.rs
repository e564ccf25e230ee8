//! The multiplexer: the children it watches, the registry of its sources,
//! and the event pump.

use crate::childout::{ChildOut, FdTag, ReadLine};
use crate::children::{Children, MuxerChild};
use crate::event::Event;
use crate::model::{MuxerView, Outcome, StateView};
use crate::pid::Pid;
use crate::protocol::{Fault, Handle, Registration, Reply, Request};
use crate::registry::{
    slab_contains, slab_entries, slab_insert, slab_new, slab_remove, slab_vacant, slab_vacant_key,
    EventSource,
};
use crate::signal::SignalSource;
use crate::source::{EventStream, SourceInstruction};
use crate::status::ExitStatus;
use crate::termination::{ChildTerminationSource, Termination, Ward};
use crate::text::text_of;
use slab::Slab;
use vstd::prelude::*;

verus! {

/// A handle to a child that was spawned with the multiplexer.
#[derive(Debug)]
pub struct ChildInfo {
    pub pid: Pid,
    /// The path of the program that the child runs.
    pub prog_path: String,
    /// Where the multiplexer publishes the child's exit status.
    pub ticket: usize,
}

impl ChildInfo {
    /// The path of the program that the child runs.
    pub fn program(&self) -> (path: &String)
        ensures
            path@ == self.prog_path@,
    {
        &self.prog_path
    }

    /// The child's exit status, once the multiplexer has learned that the
    /// child ended: what is published under the child's ticket.
    pub fn exit_status(&self, muxer: &Muxer) -> (status: Option<ExitStatus>)
        ensures
            status == muxer@.published(self.ticket),
    {
        if self.ticket < muxer.statuses.len() {
            muxer.statuses[self.ticket]
        } else {
            None
        }
    }
}

/// What a spawn comes to: the handle of the child, and for each captured
/// pipe the registration that the driver has to make with the poller.
#[derive(Debug)]
pub struct Spawned {
    pub info: ChildInfo,
    pub stdout: Option<Registration>,
    pub stderr: Option<Registration>,
}

/// Where the pump stands, with the source that is being drained. A source
/// that is being drained is out of the registry; at most one is at a time.
#[derive(Debug)]
pub enum State {
    /// No work is known.
    Awaiting,
    /// The driver has been asked which children ended.
    Reaping(ChildTerminationSource),
    /// The stream is read until it would block or ends.
    DrainingChildOut(ChildOut),
    /// The stream has ended and is taken away from the poller; its closing is
    /// still to be reported.
    Closing(ChildOut),
    /// The collected terminations are reported.
    DrainingChildTerminated,
    /// The signal source hands out its signals.
    DrainingSignals(SignalSource),
}

impl View for State {
    type V = StateView;

    open spec fn view(&self) -> StateView {
        match self {
            State::Awaiting => StateView::Awaiting,
            State::Reaping(_) => StateView::Reaping,
            State::DrainingChildOut(c) => StateView::DrainingChildOut(c@),
            State::Closing(c) => StateView::Closing(c@),
            State::DrainingChildTerminated => StateView::DrainingChildTerminated,
            State::DrainingSignals(s) => StateView::DrainingSignals(s@),
        }
    }
}

impl State {
    /// The invariant of the source that the state holds.
    pub open spec fn wf(&self) -> bool {
        match self {
            State::DrainingChildOut(c) => c.wf(),
            State::Closing(c) => c.wf(),
            State::DrainingSignals(s) => s.wf(),
            _ => true,
        }
    }
}

/// A process multiplexer.
pub struct Muxer {
    /// The children that are alive as far as is known.
    children: Children,
    /// The registry: every source that is armed with the poller, under the
    /// token with which the poller reports it.
    fds: Slab<EventSource>,
    /// Where the pump stands.
    state: State,
    /// The terminations that were collected and not reported yet.
    wait_buffer: Vec<Termination>,
    /// The readiness tokens of the last poll that were not looked at yet.
    pending_events: Vec<usize>,
    /// The ledger of exit statuses, one entry for each child ever taken
    /// charge of, by ticket. An entry is written once, when its child ends.
    statuses: Vec<Option<ExitStatus>>,
}

impl View for Muxer {
    type V = MuxerView;

    closed spec fn view(&self) -> MuxerView {
        MuxerView {
            children: self.children@,
            waits: self.wait_buffer@.map_values(|t: Termination| t@),
            statuses: self.statuses@,
            sources: slab_entries(self.fds).map_values(|e: EventSource| e@),
            state: self.state@,
            pending: self.pending_events@,
        }
    }
}

impl Muxer {
    /// The token that the registry gives out next.
    pub closed spec fn vacant(&self) -> usize {
        slab_vacant_key(self.fds)
    }

    /// The multiplexer's invariant: every source it holds is sound, and the
    /// published statuses agree with the children and the terminations.
    pub closed spec fn wf(&self) -> bool {
        &&& forall|k: usize| #[trigger]
            slab_entries(self.fds).contains_key(k) ==> slab_entries(self.fds)[k].wf()
        &&& !slab_entries(self.fds).contains_key(slab_vacant_key(self.fds))
        &&& self.state.wf()
        &&& self@.inv()
    }

    /// A sound multiplexer obeys the model's invariant, and its next token is
    /// not in use.
    pub proof fn lemma_wf(&self)
        requires
            self.wf(),
        ensures
            self@.inv(),
            !self@.sources.contains_key(self.vacant()),
    {
    }

    /// A multiplexer without children, with or without a signal source.
    fn fresh(signals: bool) -> (r: (Muxer, Vec<Registration>))
        ensures
            r.0.wf(),
            r.0@ == MuxerView::initial(signals, r.1@),
            MuxerView::initial_registrations(signals, r.1@),
    {
        let mut fds = slab_new();
        let mut regs: Vec<Registration> = Vec::new();
        let reaper = slab_insert(&mut fds, EventSource::ChildTerminated(ChildTerminationSource::new()));
        regs.push(Registration { source: Handle::Reaper, token: reaper });
        if signals {
            let token = slab_insert(&mut fds, EventSource::ReceivedSignal(SignalSource::new()));
            regs.push(Registration { source: Handle::Signals, token });
        }
        let muxer = Muxer {
            children: Children::new(),
            fds,
            state: State::Awaiting,
            wait_buffer: Vec::new(),
            pending_events: Vec::new(),
            statuses: Vec::new(),
        };
        proof {
            assert(muxer@.waits =~= Seq::empty());
            assert(muxer@.sources =~= MuxerView::initial(signals, regs@).sources);
        }
        (muxer, regs)
    }

    /// A multiplexer without children. Its termination source and its signal
    /// source are registered; the registrations that come back are those the
    /// driver has to make with the poller, the termination source first.
    pub fn new() -> (r: (Muxer, Vec<Registration>))
        ensures
            r.0.wf(),
            r.0@ == MuxerView::initial(true, r.1@),
            MuxerView::initial_registrations(true, r.1@),
    {
        Muxer::fresh(true)
    }

    /// A multiplexer without children that reports no signals: only its
    /// termination source is registered.
    pub fn without_signals() -> (r: (Muxer, Vec<Registration>))
        ensures
            r.0.wf(),
            r.0@ == MuxerView::initial(false, r.1@),
            MuxerView::initial_registrations(false, r.1@),
    {
        Muxer::fresh(false)
    }

    /// The pids of the children whose termination was not reported yet: the
    /// live ones, then those whose termination is queued.
    pub fn pids(&self) -> (pids: Vec<Pid>)
        ensures
            forall|p: Pid| pids@.contains(p) <==> self@.owes(p),
    {
        let mut out = self.children.pids();
        let ghost live = out@;
        let mut i: usize = 0;
        while i < self.wait_buffer.len()
            invariant
                i <= self.wait_buffer.len(),
                live.len() <= out@.len(),
                out@.subrange(0, live.len() as int) == live,
                out@.len() == live.len() + i,
                forall|j: int| 0 <= j < i ==> out@[live.len() + j] == self.wait_buffer@[j].pid,
            decreases self.wait_buffer.len() - i,
        {
            out.push(self.wait_buffer[i].pid);
            i += 1;
            assert(out@.subrange(0, live.len() as int) =~= live);
        }
        proof {
            let waits = self@.waits;
            assert forall|p: Pid| out@.contains(p) <==> self@.owes(p) by {
                if out@.contains(p) {
                    let j = choose|j: int| 0 <= j < out@.len() && out@[j] == p;
                    if j < live.len() {
                        assert(out@.subrange(0, live.len() as int)[j] == p);
                        assert(live.contains(p));
                    } else {
                        assert(waits[j - live.len()].pid == p);
                    }
                }
                if self@.children.contains_key(p.inner) {
                    assert(live.contains(p));
                    let j = choose|j: int| 0 <= j < live.len() && live[j] == p;
                    assert(out@.subrange(0, live.len() as int)[j] == p);
                    assert(out@[j] == p);
                }
                if exists|i: int| 0 <= i < waits.len() && (#[trigger] waits[i]).pid == p {
                    let i = choose|i: int| 0 <= i < waits.len() && (#[trigger] waits[i]).pid == p;
                    assert(out@[live.len() + i] == p);
                }
            }
        }
        out
    }

    /// How many terminations are queued: collected, and not reported yet.
    pub fn queued(&self) -> (n: usize)
        ensures
            n == self@.waits.len(),
    {
        self.wait_buffer.len()
    }

    /// The pids of the children that are alive as far as is known: those on
    /// which a wait can still be tried.
    pub fn live_pids(&self) -> (pids: Vec<Pid>)
        ensures
            pids@.no_duplicates(),
            forall|p: Pid| pids@.contains(p) <==> self@.children.contains_key(p.inner),
    {
        self.children.pids()
    }

    /// Takes charge of a child that the driver has launched: `pid` runs
    /// `prog_path`, and `stdout` and `stderr` are the descriptor numbers of
    /// the read ends of its captured pipes, where they are captured. A stream
    /// is registered for each captured pipe, standard output first; the child
    /// joins the live children, replacing a record under the same pid; and a
    /// ticket is issued under which nothing is published yet.
    pub fn spawn(
        &mut self,
        pid: Pid,
        prog_path: String,
        stdout: Option<i32>,
        stderr: Option<i32>,
    ) -> (spawned: Spawned)
        requires
            old(self).wf(),
        ensures
            final(self).wf(),
            old(self)@.spawn_registrations(stdout, stderr, spawned.stdout, spawned.stderr),
            spawned.stdout matches Some(r) ==> r.token == old(self).vacant(),
            final(self)@ == old(self)@.spawned(pid, prog_path@, spawned.stdout, spawned.stderr),
            spawned.info.pid == pid,
            spawned.info.prog_path@ == prog_path@,
            spawned.info.ticket == old(self)@.statuses.len(),
    {
        let ghost pre = self@;
        let out_reg = match stdout {
            Some(fd) => {
                let stream = ChildOut::from_pipe(fd, pid, prog_path.clone(), FdTag::Stdout);
                let token = slab_insert(&mut self.fds, EventSource::ReadableChild(stream));
                Some(Registration { source: Handle::Pipe(fd), token })
            },
            None => None,
        };
        let ghost mid = self@;
        assert(mid.sources =~= pre.with_stream(out_reg, pid, prog_path@, FdTag::Stdout).sources);
        let err_reg = match stderr {
            Some(fd) => {
                let stream = ChildOut::from_pipe(fd, pid, prog_path.clone(), FdTag::Stderr);
                let token = slab_insert(&mut self.fds, EventSource::ReadableChild(stream));
                Some(Registration { source: Handle::Pipe(fd), token })
            },
            None => None,
        };
        assert(self@.sources =~= mid.with_stream(err_reg, pid, prog_path@, FdTag::Stderr).sources);
        let ticket = self.statuses.len();
        self.statuses.push(None);
        self.children.insert(MuxerChild { pid, prog_path: prog_path.clone(), ticket });
        let info = ChildInfo { pid, prog_path, ticket };
        proof {
            let post = pre.spawned(pid, prog_path@, out_reg, err_reg);
            assert(self@.children =~= post.children);
            assert(self@.statuses =~= post.statuses);
            assert(self@.sources =~= post.sources);
            assert(self@ == post);
            pre.lemma_spawned_inv(pid, prog_path@, out_reg, err_reg);
        }
        Spawned { info, stdout: out_reg, stderr: err_reg }
    }

    /// Takes the source under the token of `reg` out of the registry, if
    /// there is one.
    fn unregister(&mut self, reg: Option<Registration>)
        requires
            old(self).wf(),
        ensures
            final(self).wf(),
            final(self)@ == old(self)@.without(reg),
    {
        match reg {
            Some(r) => {
                if slab_contains(&self.fds, r.token) {
                    let _ = slab_remove(&mut self.fds, r.token);
                }
                assert(self@.sources =~= old(self)@.sources.remove(r.token));
            },
            None => {},
        }
    }

    /// Gives up a spawn whose pipes could not be registered with the poller:
    /// the streams under the tokens of `spawned` leave the registry, and the
    /// child leaves the live children if it still holds the ticket of
    /// `spawned`. No termination of it will be reported.
    pub fn abandon(&mut self, spawned: &Spawned)
        requires
            old(self).wf(),
        ensures
            final(self).wf(),
            final(self)@ == old(self)@.abandoned(
                spawned.info.pid,
                spawned.info.ticket,
                spawned.stdout,
                spawned.stderr,
            ),
    {
        proof {
            self@.lemma_abandoned_inv(
                spawned.info.pid,
                spawned.info.ticket,
                spawned.stdout,
                spawned.stderr,
            );
        }
        let held = self.children.ticket_of(spawned.info.pid);
        self.unregister(spawned.stdout);
        self.unregister(spawned.stderr);
        if held == Some(spawned.info.ticket) {
            let _ = self.children.remove(spawned.info.pid);
        }
    }

    /// The parts of the invariant that speak of the registry and the ledger,
    /// whatever state the pump is in.
    spec fn parts_wf(&self) -> bool {
        &&& forall|k: usize| #[trigger]
            slab_entries(self.fds).contains_key(k) ==> slab_entries(self.fds)[k].wf()
        &&& !slab_entries(self.fds).contains_key(slab_vacant_key(self.fds))
        &&& self@.inv()
    }

    /// Puts `source` back into the registry and asks the driver to arm it
    /// again under its new token.
    fn register(&mut self, source: EventSource, handle: Handle) -> (request: Request)
        requires
            old(self).parts_wf(),
            source.wf(),
        ensures
            final(self).parts_wf(),
            !old(self)@.sources.contains_key(old(self).vacant()),
            final(self)@ == old(self)@.with_source(old(self).vacant(), source@),
            request@ == crate::protocol::RequestView::Reregister(
                Registration { source: handle, token: old(self).vacant() },
            ),
    {
        let token = slab_insert(&mut self.fds, source);
        assert(self@.sources =~= old(self)@.sources.insert(token, source@));
        Request::Reregister(Registration { source: handle, token })
    }

    /// The next step of a stream that is being drained.
    fn drain_stream(&mut self, stream: ChildOut) -> (request: Request)
        requires
            old(self).parts_wf(),
            stream.wf(),
        ensures
            final(self).parts_wf(),
            final(self).state.wf(),
            final(self).vacant() == old(self).vacant(),
            Outcome::of(final(self)@, request@) == old(self)@.drain_stream(stream@),
    {
        let mut stream = stream;
        match stream.read_line() {
            ReadLine::Line(bytes) => {
                let request = match text_of(bytes) {
                    Some(line) => Request::Deliver(
                        Event::ChildWrote {
                            pid: stream.pid,
                            prog_path: stream.prog_path.clone(),
                            tag: stream.tag,
                            line,
                        },
                    ),
                    None => Request::Fault(Fault::InvalidUtf8),
                };
                self.state = State::DrainingChildOut(stream);
                request
            },
            ReadLine::Starved => {
                let fd = stream.fd;
                self.state = State::DrainingChildOut(stream);
                Request::Read { fd }
            },
            ReadLine::EndOfStream => {
                let fd = stream.fd;
                self.state = State::Closing(stream);
                Request::Deregister(Handle::Pipe(fd))
            },
        }
    }

    /// The next step of the signal source that is being drained.
    fn drain_signals(&mut self, source: SignalSource) -> (request: Request)
        requires
            old(self).parts_wf(),
            source.wf(),
        ensures
            final(self).parts_wf(),
            final(self).state.wf(),
            Outcome::of(final(self)@, request@) == old(self)@.drain_signals(
                source@,
                old(self).vacant(),
            ),
    {
        let mut source = source;
        if source.is_waiting() {
            self.state = State::DrainingSignals(source);
            Request::Snapshot
        } else {
            match source.next() {
                EventStream::Emit(signal) => {
                    self.state = State::DrainingSignals(source);
                    Request::Deliver(Event::SignalReceived { signal })
                },
                EventStream::Drained(SourceInstruction::Reregister) => {
                    self.state = State::Awaiting;
                    self.register(EventSource::ReceivedSignal(source), Handle::Signals)
                },
                EventStream::Drained(SourceInstruction::Deregister) => {
                    self.state = State::Awaiting;
                    Request::Deregister(Handle::Signals)
                },
            }
        }
    }

    /// The next step where no work is known: the last pending token is
    /// looked at, or the poller is asked.
    fn dispatch(&mut self) -> (request: Request)
        requires
            old(self).parts_wf(),
        ensures
            final(self).parts_wf(),
            final(self).state.wf(),
            Outcome::of(final(self)@, request@) == old(self)@.dispatch(
                old(self).vacant(),
            ),
    {
        self.state = State::Awaiting;
        match self.pending_events.pop() {
            None => Request::Poll,
            Some(token) => {
                assert(self@.pending =~= old(self)@.pending.drop_last());
                if !slab_contains(&self.fds, token) {
                    Request::Fault(Fault::UnknownToken(token))
                } else {
                    let source = slab_remove(&mut self.fds, token);
                    assert(self@.sources =~= old(self)@.sources.remove(token));
                    match source {
                        EventSource::ChildTerminated(reaper) => {
                            self.state = State::Reaping(reaper);
                            Request::Reap
                        },
                        EventSource::ReadableChild(stream) => self.drain_stream(stream),
                        EventSource::ReceivedSignal(signals) => self.drain_signals(signals),
                    }
                }
            },
        }
    }

    /// What the multiplexer asks for from where it stands.
    fn settle(&mut self) -> (request: Request)
        requires
            old(self).parts_wf(),
            old(self).state.wf(),
        ensures
            final(self).parts_wf(),
            final(self).state.wf(),
            Outcome::of(final(self)@, request@) == old(self)@.settle(
                old(self).vacant(),
            ),
    {
        let mut state = State::Awaiting;
        core::mem::swap(&mut state, &mut self.state);
        match state {
            State::Awaiting => self.dispatch(),
            State::Reaping(reaper) => {
                self.state = State::Reaping(reaper);
                Request::Reap
            },
            State::DrainingChildOut(stream) => self.drain_stream(stream),
            State::Closing(stream) => {
                let ChildOut { pid, prog_path, tag, .. } = stream;
                Request::Deliver(Event::FdClosed { pid, prog_path, tag })
            },
            State::DrainingChildTerminated => match self.wait_buffer.pop() {
                None => self.dispatch(),
                Some(t) => {
                    self.state = State::DrainingChildTerminated;
                    proof {
                        assert(self@.waits =~= old(self)@.waits.drop_last());
                        old(self)@.lemma_reported_inv();
                    }
                    Request::Deliver(
                        Event::ChildTerminated {
                            pid: t.pid,
                            prog_path: t.prog_path,
                            exit_status: t.exit_status,
                        },
                    )
                },
            },
            State::DrainingSignals(source) => self.drain_signals(source),
        }
    }

    /// One step of the event pump. `reply` is what the driver found when it
    /// carried out the last request (`Resume` where there was none); the
    /// result is what the driver is to do next. The step is the model's.
    pub fn pump(&mut self, reply: Reply) -> (request: Request)
        requires
            old(self).wf(),
        ensures
            final(self).wf(),
            Outcome::of(final(self)@, request@) == old(self)@.step(
                old(self).vacant(),
                reply@,
            ),
    {
        match reply {
            Reply::Resume => self.settle(),
            Reply::Interrupted => self.settle(),
            Reply::Ready(tokens) => {
                if let State::Awaiting = self.state {
                    let mut tokens = tokens;
                    self.pending_events.append(&mut tokens);
                    self.settle()
                } else {
                    Request::Fault(Fault::UnexpectedReply)
                }
            },
            Reply::Failed => {
                match &self.state {
                    State::Awaiting => Request::Fault(Fault::Poll),
                    State::DrainingChildOut(_) => Request::Fault(Fault::Read),
                    _ => Request::Fault(Fault::UnexpectedReply),
                }
            },
            Reply::WouldBlock => {
                let mut state = State::Awaiting;
                core::mem::swap(&mut state, &mut self.state);
                match state {
                    State::DrainingChildOut(stream) => {
                        let fd = stream.fd;
                        self.register(EventSource::ReadableChild(stream), Handle::Pipe(fd))
                    },
                    other => {
                        self.state = other;
                        Request::Fault(Fault::UnexpectedReply)
                    },
                }
            },
            Reply::Bytes(bytes) => {
                let mut state = State::Awaiting;
                core::mem::swap(&mut state, &mut self.state);
                match state {
                    State::DrainingChildOut(stream) => {
                        let mut stream = stream;
                        if bytes.len() == 0 {
                            stream.close();
                        } else {
                            stream.feed(bytes);
                        }
                        self.drain_stream(stream)
                    },
                    other => {
                        self.state = other;
                        Request::Fault(Fault::UnexpectedReply)
                    },
                }
            },
            Reply::Reaped { signalled, exits } => {
                let mut state = State::Awaiting;
                core::mem::swap(&mut state, &mut self.state);
                match state {
                    State::Reaping(reaper) => {
                        let mut reaper = reaper;
                        let ghost before = self@;
                        let instruction = reaper.handle_event(
                            signalled,
                            &exits,
                            &mut self.children,
                            &mut self.wait_buffer,
                            &mut self.statuses,
                        );
                        proof {
                            assert(Ward::of(
                                before.children,
                                old(self).wait_buffer@,
                                before.statuses,
                            ) == before.ward());
                            assert(self@ == before.with_ward(
                                before.ward().handled(signalled, exits@),
                            ));
                            before.lemma_handled_inv(signalled, exits@);
                        }
                        match instruction {
                            SourceInstruction::Reregister => {
                                self.state = State::DrainingChildTerminated;
                                self.register(EventSource::ChildTerminated(reaper), Handle::Reaper)
                            },
                            SourceInstruction::Deregister => {
                                Request::Deregister(Handle::Reaper)
                            },
                        }
                    },
                    other => {
                        self.state = other;
                        Request::Fault(Fault::UnexpectedReply)
                    },
                }
            },
            Reply::Snapshot(raw) => {
                let mut state = State::Awaiting;
                core::mem::swap(&mut state, &mut self.state);
                match state {
                    State::DrainingSignals(source) => {
                        let mut source = source;
                        match source.load(&raw) {
                            Ok(()) => self.drain_signals(source),
                            Err(n) => {
                                self.state = State::DrainingSignals(source);
                                Request::Fault(Fault::UnexpectedSignal(n))
                            },
                        }
                    },
                    other => {
                        self.state = other;
                        Request::Fault(Fault::UnexpectedReply)
                    },
                }
            },
        }
    }

    /// The token under which the next source will be registered.
    pub fn vacant_token(&self) -> (token: usize)
        ensures
            token == self.vacant(),
    {
        slab_vacant(&self.fds)
    }
}

} // verus!
