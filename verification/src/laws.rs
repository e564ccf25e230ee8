//! What holds of every run of the multiplexer.
//!
//! A run is a sequence of inputs: children that are taken charge of, and
//! steps of the pump. The laws below are proved for every run, whatever the
//! driver replies.

use crate::event::EventView;
use crate::model::{MuxerView, Outcome, StateView};
use crate::pid::Pid;
use crate::protocol::{Registration, ReplyView, RequestView};
use crate::registry::SourceView;
use crate::status::ExitStatus;
use crate::termination::{TerminationView, Ward};
use vstd::prelude::*;
use vstd::utf8::{decode_utf8, encode_utf8, valid_utf8};

verus! {

/// How many of the queued terminations are of `pid`.
pub open spec fn queued(waits: Seq<TerminationView>, pid: Pid) -> nat
    decreases waits.len(),
{
    if waits.len() == 0 {
        0
    } else {
        queued(waits.drop_last(), pid) + if waits.last().pid == pid {
            1nat
        } else {
            0nat
        }
    }
}

/// Whether the request reports the termination of `pid`.
pub open spec fn reports(request: RequestView, pid: Pid) -> bool {
    request matches RequestView::Deliver(EventView::ChildTerminated { pid: p, .. }) && p == pid
}

/// The status with which the request reports the termination of `pid`, if it
/// does report it.
pub open spec fn reported_status(request: RequestView, pid: Pid) -> Option<ExitStatus> {
    match request {
        RequestView::Deliver(EventView::ChildTerminated { pid: p, exit_status, .. }) => if p
            == pid {
            Some(exit_status)
        } else {
            None
        },
        _ => None,
    }
}

impl Ward {
    /// How many terminations of `pid` are owed to the user: one if it is a
    /// live child, and one for each that is queued.
    pub open spec fn owed(self, pid: Pid) -> nat {
        queued(self.waits, pid) + if self.children.contains_key(pid.inner) {
            1nat
        } else {
            0nat
        }
    }

    /// The ward after the last queued termination was reported.
    pub open spec fn reported(self) -> Ward {
        Ward { waits: self.waits.drop_last(), ..self }
    }

    /// Whether `ticket` is the ticket of the latest child `pid`, and `last`
    /// the status with which its termination was reported, if it was.
    pub open spec fn tracks(self, pid: Pid, ticket: usize, last: Option<ExitStatus>) -> bool {
        &&& ticket < self.statuses.len()
        &&& self.owed(pid) <= 1
        &&& self.children.contains_key(pid.inner) ==> self.children[pid.inner].ticket == ticket
        &&& forall|i: int|
            0 <= i < self.waits.len() && (#[trigger] self.waits[i]).pid == pid
                ==> self.waits[i].ticket == ticket
        &&& self.owed(pid) > 0 ==> last.is_none()
        &&& self.owed(pid) == 0 ==> last.is_some() && self.statuses[ticket as int] == last
    }
}

/// A pid is queued at least once exactly if one of the queued terminations
/// is of it.
pub proof fn lemma_queued(waits: Seq<TerminationView>, pid: Pid)
    ensures
        queued(waits, pid) > 0 <==> exists|i: int|
            0 <= i < waits.len() && (#[trigger] waits[i]).pid == pid,
    decreases waits.len(),
{
    if waits.len() > 0 {
        let front = waits.drop_last();
        lemma_queued(front, pid);
        if queued(waits, pid) > 0 {
            if waits.last().pid == pid {
                assert(waits[waits.len() - 1].pid == pid);
            } else {
                let i = choose|i: int| 0 <= i < front.len() && (#[trigger] front[i]).pid == pid;
                assert(waits[i].pid == pid);
            }
        }
        if exists|i: int| 0 <= i < waits.len() && (#[trigger] waits[i]).pid == pid {
            let i = choose|i: int| 0 <= i < waits.len() && (#[trigger] waits[i]).pid == pid;
            if i < front.len() {
                assert(front[i].pid == pid);
            }
        }
    }
}

/// Queueing one more termination counts for its pid alone.
pub proof fn lemma_queued_push(waits: Seq<TerminationView>, t: TerminationView, pid: Pid)
    ensures
        queued(waits.push(t), pid) == queued(waits, pid) + if t.pid == pid {
            1nat
        } else {
            0nat
        },
{
    assert(waits.push(t).drop_last() =~= waits);
}

impl Ward {
    /// A termination of `pid` is owed exactly if `pid` is a live child or
    /// queued.
    pub proof fn lemma_owed(self, pid: Pid)
        ensures
            self.owed(pid) > 0 <==> self.children.contains_key(pid.inner) || exists|i: int|
                0 <= i < self.waits.len() && (#[trigger] self.waits[i]).pid == pid,
    {
        lemma_queued(self.waits, pid);
    }

    /// Reaping moves a termination from the live children to the queue:
    /// what is owed stays the same, for every pid.
    pub proof fn lemma_reap_owed(self, reaped: Pid, status: ExitStatus, pid: Pid)
        requires
            self.inv(),
        ensures
            self.reap(reaped, status).owed(pid) == self.owed(pid),
    {
        if self.children.contains_key(reaped.inner) {
            let child = self.children[reaped.inner];
            assert(child.pid == reaped);
            let t = self.reap(reaped, status).waits.last();
            lemma_queued_push(self.waits, t, pid);
            if pid.inner == reaped.inner {
                assert(pid == reaped);
            }
        }
    }

    /// Reaping any number of children leaves what is owed the same.
    pub proof fn lemma_reap_all_owed(self, exits: Seq<(Pid, ExitStatus)>, pid: Pid)
        requires
            self.inv(),
        ensures
            self.reap_all(exits).owed(pid) == self.owed(pid),
        decreases exits.len(),
    {
        if exits.len() > 0 {
            self.lemma_reap_all_owed(exits.drop_last(), pid);
            self.lemma_reap_all_inv(exits.drop_last());
            self.reap_all(exits.drop_last()).lemma_reap_owed(exits.last().0, exits.last().1, pid);
        }
    }

    /// Reaping one child keeps track of the latest child `pid`.
    pub proof fn lemma_reap_tracks(
        self,
        reaped: Pid,
        status: ExitStatus,
        pid: Pid,
        ticket: usize,
        last: Option<ExitStatus>,
    )
        requires
            self.inv(),
            self.tracks(pid, ticket, last),
        ensures
            self.reap(reaped, status).tracks(pid, ticket, last),
    {
        let after = self.reap(reaped, status);
        self.lemma_reap_owed(reaped, status, pid);
        self.lemma_reap_inv(reaped, status);
        if self.children.contains_key(reaped.inner) {
            let child = self.children[reaped.inner];
            assert(child.pid == reaped);
            assert forall|i: int|
                0 <= i < after.waits.len() && (#[trigger] after.waits[i]).pid
                    == pid implies after.waits[i].ticket == ticket by {
                if i < self.waits.len() {
                    assert(after.waits[i] == self.waits[i]);
                } else {
                    assert(pid == reaped);
                }
            }
            if self.owed(pid) == 0 {
                assert(self.statuses[child.ticket as int].is_none());
            }
        }
    }

    /// Reaping any number of children keeps track of the latest child `pid`.
    pub proof fn lemma_reap_all_tracks(
        self,
        exits: Seq<(Pid, ExitStatus)>,
        pid: Pid,
        ticket: usize,
        last: Option<ExitStatus>,
    )
        requires
            self.inv(),
            self.tracks(pid, ticket, last),
        ensures
            self.reap_all(exits).tracks(pid, ticket, last),
        decreases exits.len(),
    {
        if exits.len() > 0 {
            self.lemma_reap_all_tracks(exits.drop_last(), pid, ticket, last);
            self.lemma_reap_all_inv(exits.drop_last());
            self.reap_all(exits.drop_last()).lemma_reap_tracks(
                exits.last().0,
                exits.last().1,
                pid,
                ticket,
                last,
            );
        }
    }

    /// Reporting the last queued termination keeps track of the latest child
    /// `pid`: if the termination is of `pid`, its status is the one that is
    /// published under the ticket.
    pub proof fn lemma_reported_tracks(self, pid: Pid, ticket: usize, last: Option<ExitStatus>)
        requires
            self.inv(),
            self.tracks(pid, ticket, last),
            self.waits.len() > 0,
        ensures
            self.reported().owed(pid) + (if self.waits.last().pid == pid {
                1nat
            } else {
                0nat
            }) == self.owed(pid),
            self.reported().tracks(
                pid,
                ticket,
                if self.waits.last().pid == pid {
                    Some(self.waits.last().exit_status)
                } else {
                    last
                },
            ),
    {
        let after = self.reported();
        let t = self.waits.last();
        assert forall|i: int|
            0 <= i < after.waits.len() && (#[trigger] after.waits[i]).pid
                == pid implies after.waits[i].ticket == ticket by {
            assert(after.waits[i] == self.waits[i]);
        }
        assert(self.waits[self.waits.len() - 1] == t);
    }

    /// Once a status is published it stays: reaping writes only under
    /// tickets under which nothing was published.
    pub proof fn lemma_reap_all_keeps(self, exits: Seq<(Pid, ExitStatus)>, ticket: usize)
        requires
            self.inv(),
            ticket < self.statuses.len(),
            self.statuses[ticket as int].is_some(),
        ensures
            self.reap_all(exits).statuses.len() == self.statuses.len(),
            self.reap_all(exits).statuses[ticket as int] == self.statuses[ticket as int],
        decreases exits.len(),
    {
        if exits.len() > 0 {
            self.lemma_reap_all_keeps(exits.drop_last(), ticket);
            self.lemma_reap_all_inv(exits.drop_last());
        }
    }
}

impl MuxerView {
    /// How many terminations of `pid` are owed to the user.
    pub open spec fn owed(self, pid: Pid) -> nat {
        self.ward().owed(pid)
    }

    /// A step of the pump touches the children, the queue and the statuses
    /// in one of three ways: not at all; by reaping, when the driver says
    /// which children ended; or by reporting the last queued termination.
    /// Only the last hands a termination to the user.
    pub proof fn lemma_step_ward(self, vacant: usize, reply: ReplyView)
        ensures
            ({
                let o = self.step(vacant, reply);
                ||| o.next.ward() == self.ward() && !(o.request matches RequestView::Deliver(
                    EventView::ChildTerminated { .. },
                ))
                ||| reply matches ReplyView::Reaped { signalled, exits } && o.next.ward()
                    == self.ward().handled(signalled, exits) && !(o.request
                    matches RequestView::Deliver(EventView::ChildTerminated { .. }))
                ||| self.waits.len() > 0 && o.next.ward() == self.ward().reported() && o.request
                    == RequestView::Deliver(
                    EventView::ChildTerminated {
                        pid: self.waits.last().pid,
                        prog_path: self.waits.last().prog_path,
                        exit_status: self.waits.last().exit_status,
                    },
                )
            }),
    {
    }
}

/// One input of a run.
pub enum Input {
    /// The multiplexer takes charge of a child.
    Spawn { pid: Pid, prog_path: Seq<char>, out: Option<Registration>, err: Option<Registration> },
    /// The pump makes a step on a reply of the driver. `vacant` is the token
    /// that the registry would give out next.
    Pump { vacant: usize, reply: ReplyView },
}

impl MuxerView {
    /// The multiplexer after `input`.
    pub open spec fn after(self, input: Input) -> MuxerView {
        match input {
            Input::Spawn { pid, prog_path, out, err } => self.spawned(pid, prog_path, out, err),
            Input::Pump { vacant, reply } => self.step(vacant, reply).next,
        }
    }

    /// What the multiplexer asks for on `input`, if it is a step of the pump.
    pub open spec fn asks(self, input: Input) -> Option<RequestView> {
        match input {
            Input::Spawn { .. } => None,
            Input::Pump { vacant, reply } => Some(self.step(vacant, reply).request),
        }
    }

    /// The multiplexer after all of `inputs`, in order.
    pub open spec fn run(self, inputs: Seq<Input>) -> MuxerView
        decreases inputs.len(),
    {
        if inputs.len() == 0 {
            self
        } else {
            self.run(inputs.drop_last()).after(inputs.last())
        }
    }

    /// Whether no child is taken charge of under a pid of which a termination
    /// is still owed, and no more tickets are issued than can be numbered.
    pub open spec fn orderly(self, inputs: Seq<Input>) -> bool
        decreases inputs.len(),
    {
        inputs.len() == 0 || {
            &&& self.orderly(inputs.drop_last())
            &&& inputs.last() matches Input::Spawn { pid, .. } ==> {
                &&& self.run(inputs.drop_last()).owed(pid) == 0
                &&& self.run(inputs.drop_last()).statuses.len() < usize::MAX
            }
        }
    }

    /// How often `inputs` take charge of a child `pid`.
    pub open spec fn spawns(inputs: Seq<Input>, pid: Pid) -> nat
        decreases inputs.len(),
    {
        if inputs.len() == 0 {
            0
        } else {
            MuxerView::spawns(inputs.drop_last(), pid) + if inputs.last() matches Input::Spawn {
                pid: p,
                ..
            } && p == pid {
                1nat
            } else {
                0nat
            }
        }
    }

    /// How often the termination of `pid` is reported along the run.
    pub open spec fn terminations(self, inputs: Seq<Input>, pid: Pid) -> nat
        decreases inputs.len(),
    {
        if inputs.len() == 0 {
            0
        } else {
            let before = self.run(inputs.drop_last());
            self.terminations(inputs.drop_last(), pid) + if before.asks(inputs.last())
                matches Some(request) && reports(request, pid) {
                1nat
            } else {
                0nat
            }
        }
    }

    /// The ticket that the latest child `pid` of the run was given.
    pub open spec fn latest_ticket(self, inputs: Seq<Input>, pid: Pid) -> Option<usize>
        decreases inputs.len(),
    {
        if inputs.len() == 0 {
            None
        } else if inputs.last() matches Input::Spawn { pid: p, .. } && p == pid {
            Some(self.run(inputs.drop_last()).statuses.len() as usize)
        } else {
            self.latest_ticket(inputs.drop_last(), pid)
        }
    }

    /// The status with which the termination of the latest child `pid` of
    /// the run was reported, if it was.
    pub open spec fn latest_report(self, inputs: Seq<Input>, pid: Pid) -> Option<ExitStatus>
        decreases inputs.len(),
    {
        if inputs.len() == 0 {
            None
        } else {
            let before = self.run(inputs.drop_last());
            match inputs.last() {
                Input::Spawn { pid: p, .. } => if p == pid {
                    None
                } else {
                    self.latest_report(inputs.drop_last(), pid)
                },
                Input::Pump { vacant, reply } => {
                    let request = before.step(vacant, reply).request;
                    if reports(request, pid) {
                        reported_status(request, pid)
                    } else {
                        self.latest_report(inputs.drop_last(), pid)
                    }
                },
            }
        }
    }

    /// One input keeps the invariant and accounts for every termination: what
    /// is owed afterwards, and what the input reports, make up what was owed
    /// before and what the input adds.
    pub proof fn lemma_input(self, input: Input, pid: Pid)
        requires
            self.inv(),
            input matches Input::Spawn { pid: p, .. } ==> self.owed(p) == 0 && self.statuses.len()
                < usize::MAX,
        ensures
            self.after(input).inv(),
            self.after(input).statuses.len() >= self.statuses.len(),
            self.after(input).owed(pid) + (if self.asks(input) matches Some(request) && reports(
                request,
                pid,
            ) {
                1nat
            } else {
                0nat
            }) == self.owed(pid) + (if input matches Input::Spawn { pid: p, .. } && p == pid {
                1nat
            } else {
                0nat
            }),
    {
        match input {
            Input::Spawn { pid: p, prog_path, out, err } => {
                self.lemma_spawned_inv(p, prog_path, out, err);
                self.ward().lemma_owed(p);
                assert(self.after(input).waits == self.waits);
            },
            Input::Pump { vacant, reply } => {
                self.lemma_step_ward(vacant, reply);
                let o = self.step(vacant, reply);
                if o.next.ward() == self.ward() {
                } else {
                    match reply {
                        ReplyView::Reaped { signalled, exits } => {
                            self.ward().lemma_reap_all_owed(exits, pid);
                            self.ward().lemma_reap_all_inv(exits);
                        },
                        _ => {
                            self.lemma_reported_inv();
                            assert(o.next.ward() == self.ward().reported());
                        },
                    }
                }
            },
        }
    }

    /// Every run of inputs that keep to the order keeps the invariant.
    pub proof fn lemma_run_inv(self, inputs: Seq<Input>)
        requires
            self.inv(),
            self.orderly(inputs),
        ensures
            self.run(inputs).inv(),
        decreases inputs.len(),
    {
        if inputs.len() > 0 {
            self.lemma_run_inv(inputs.drop_last());
            let before = self.run(inputs.drop_last());
            before.lemma_input(inputs.last(), Pid { inner: 0 });
        }
    }

    /// Every child is accounted for: along any run that starts without
    /// children, the terminations of `pid` that were reported and those that
    /// are still owed are as many as the children `pid` that were taken
    /// charge of; and at most one is owed at a time. So no termination is
    /// reported twice, and none is reported of a child that never was.
    pub proof fn law_terminations_accounted(self, inputs: Seq<Input>, pid: Pid)
        requires
            self.inv(),
            self.owed(pid) == 0,
            self.orderly(inputs),
        ensures
            self.terminations(inputs, pid) + self.run(inputs).owed(pid) == MuxerView::spawns(
                inputs,
                pid,
            ),
            self.run(inputs).owed(pid) <= 1,
        decreases inputs.len(),
    {
        if inputs.len() > 0 {
            self.law_terminations_accounted(inputs.drop_last(), pid);
            self.lemma_run_inv(inputs.drop_last());
            self.run(inputs.drop_last()).lemma_input(inputs.last(), pid);
        }
    }

    /// The exit status of a child is published before its termination is
    /// reported, and it is the reported one: along any run that starts
    /// without children, the ward keeps track of the latest child `pid`, of
    /// its ticket and of the status with which its termination was reported.
    pub proof fn lemma_run_tracks(self, inputs: Seq<Input>, pid: Pid)
        requires
            self.inv(),
            self.owed(pid) == 0,
            self.orderly(inputs),
            self.latest_ticket(inputs, pid).is_some(),
        ensures
            self.run(inputs).ward().tracks(
                pid,
                self.latest_ticket(inputs, pid).unwrap(),
                self.latest_report(inputs, pid),
            ),
        decreases inputs.len(),
    {
        let front = inputs.drop_last();
        let before = self.run(front);
        let after = self.run(inputs);
        self.lemma_run_inv(front);
        self.law_terminations_accounted(front, pid);
        before.lemma_input(inputs.last(), pid);
        match inputs.last() {
            Input::Spawn { pid: p, prog_path, out, err } => {
                if p == pid {
                    before.ward().lemma_owed(pid);
                    assert(after.waits == before.waits);
                } else {
                    self.lemma_run_tracks(front, pid);
                    assert(after.waits == before.waits);
                    assert(p.inner != pid.inner);
                }
            },
            Input::Pump { vacant, reply } => {
                self.lemma_run_tracks(front, pid);
                let ticket = self.latest_ticket(front, pid).unwrap();
                let last = self.latest_report(front, pid);
                before.lemma_step_ward(vacant, reply);
                let o = before.step(vacant, reply);
                if o.next.ward() == before.ward() {
                } else {
                    match reply {
                        ReplyView::Reaped { signalled, exits } => {
                            before.ward().lemma_reap_all_tracks(exits, pid, ticket, last);
                        },
                        _ => {
                            before.ward().lemma_reported_tracks(pid, ticket, last);
                        },
                    }
                }
            },
        }
    }

    /// After the termination of a child was reported, the status published
    /// under the child's ticket is the reported one.
    pub proof fn law_status_published(self, inputs: Seq<Input>, pid: Pid)
        requires
            self.inv(),
            self.owed(pid) == 0,
            self.orderly(inputs),
            self.latest_ticket(inputs, pid).is_some(),
            self.latest_report(inputs, pid).is_some(),
        ensures
            self.run(inputs).published(self.latest_ticket(inputs, pid).unwrap())
                == self.latest_report(inputs, pid),
    {
        self.lemma_run_tracks(inputs, pid);
    }

    /// A published status is never changed: whatever the input, what is
    /// published under a ticket stays published.
    pub proof fn law_status_written_once(self, input: Input, ticket: usize)
        requires
            self.inv(),
            self.published(ticket).is_some(),
        ensures
            self.after(input).published(ticket) == self.published(ticket),
    {
        match input {
            Input::Spawn { .. } => {},
            Input::Pump { vacant, reply } => {
                self.lemma_step_ward(vacant, reply);
                match reply {
                    ReplyView::Reaped { signalled, exits } => {
                        self.ward().lemma_reap_all_keeps(exits, ticket);
                    },
                    _ => {},
                }
            },
        }
    }

    /// An interrupted poll or read is not seen by the user: the multiplexer
    /// takes the interruption as it takes a plain resumption.
    pub proof fn law_interrupt_unseen(self, vacant: usize)
        ensures
            self.step(vacant, ReplyView::Interrupted) == self.step(vacant, ReplyView::Resume),
    {
    }

    /// An interrupted poll is tried again: where the multiplexer has asked
    /// for a poll and the poll is interrupted, nothing changes and it asks
    /// for a poll again.
    pub proof fn law_interrupted_poll(self, vacant: usize, reply: ReplyView, next_vacant: usize)
        requires
            self.step(vacant, reply).request == RequestView::Poll,
        ensures
            self.step(vacant, reply).next.step(next_vacant, ReplyView::Interrupted) == Outcome::of(
                self.step(vacant, reply).next,
                RequestView::Poll,
            ),
    {
    }

    /// An interrupted read is tried again: where the multiplexer has asked
    /// for a read and the read is interrupted, nothing changes and it asks
    /// for the same read again.
    pub proof fn law_interrupted_read(
        self,
        vacant: usize,
        reply: ReplyView,
        next_vacant: usize,
        fd: i32,
    )
        requires
            self.step(vacant, reply).request == (RequestView::Read { fd }),
        ensures
            self.step(vacant, reply).next.step(next_vacant, ReplyView::Interrupted) == Outcome::of(
                self.step(vacant, reply).next,
                RequestView::Read { fd },
            ),
    {
    }

    /// The poller is asked only when nothing is being drained: where the
    /// multiplexer asks for a poll, it awaits and no readiness token is left
    /// to look at.
    pub proof fn law_poll_when_idle(self, vacant: usize, reply: ReplyView)
        requires
            self.step(vacant, reply).request == RequestView::Poll,
        ensures
            self.step(vacant, reply).next.state == StateView::Awaiting,
            self.step(vacant, reply).next.pending.len() == 0,
    {
    }

    /// The descriptor of the stream that is out of the registry to be drained
    /// or closed, if one is.
    pub open spec fn stream_in_hand(self) -> Option<i32> {
        match self.state {
            StateView::DrainingChildOut(c) => Some(c.fd),
            StateView::Closing(c) => Some(c.fd),
            _ => None,
        }
    }

    /// Whether the stream of the pipe with descriptor `fd` is registered.
    pub open spec fn registers_stream(self, fd: i32) -> bool {
        exists|k: usize|
            self.sources.contains_key(k) && (#[trigger] self.sources[k]
                matches SourceView::ReadableChild(c) && c.fd == fd)
    }

    /// Whether the multiplexer holds the stream of the pipe with descriptor
    /// `fd`: in its registry, or out of it to be drained or closed.
    pub open spec fn holds_stream(self, fd: i32) -> bool {
        self.registers_stream(fd) || self.stream_in_hand() == Some(fd)
    }

    /// A line reaches the user as the child wrote it: where the pump delivers
    /// a line of a stream that is being drained, the line is the text of the
    /// next line of the stream, and the text encodes to the very bytes of it.
    pub proof fn law_line_is_what_was_written(self, vacant: usize)
        requires
            self.state is DrainingChildOut,
        ensures
            ({
                let c = self.state->DrainingChildOut_0;
                self.step(vacant, ReplyView::Resume).request matches RequestView::Deliver(
                    e,
                ) ==> c.next_line() matches Some(bytes) && valid_utf8(bytes) && e
                    == (EventView::ChildWrote {
                    pid: c.pid,
                    prog_path: c.prog_path,
                    tag: c.tag,
                    line: decode_utf8(bytes),
                }) && encode_utf8(decode_utf8(bytes)) == bytes
            }),
    {
        let c = self.state->DrainingChildOut_0;
        if c.next_line() matches Some(bytes) && valid_utf8(bytes) {
            vstd::utf8::decode_utf8_encode_utf8(c.next_line().unwrap());
        }
    }

    /// Whether a stream whose closing is about to be reported has ended and
    /// has handed out every byte.
    pub open spec fn spent(self) -> bool {
        self.state matches StateView::Closing(c) ==> c.closed && c.carry.len() == 0
    }

    /// The closing of a pipe is reported after all of its lines: a stream
    /// comes to be closed only once its pipe has ended and nothing of it is
    /// left to hand out.
    pub proof fn law_closing_is_spent(self, vacant: usize, reply: ReplyView)
        requires
            self.spent(),
        ensures
            self.step(vacant, reply).next.spent(),
    {
    }

    /// The closing of a pipe is reported once: it is reported of the stream
    /// that is being closed, and with the report the stream is gone.
    pub proof fn law_closed_once(self, vacant: usize, reply: ReplyView)
        ensures
            self.step(vacant, reply).request matches RequestView::Deliver(
                EventView::FdClosed { pid, prog_path, tag },
            ) ==> self.state matches StateView::Closing(c) && c.pid == pid && c.prog_path
                == prog_path && c.tag == tag && self.step(vacant, reply).next.state
                == StateView::Awaiting,
    {
    }

    /// No stream is dropped in silence: a stream that the multiplexer holds
    /// is still held after a step, unless the step reports its closing.
    pub proof fn law_stream_stays(self, vacant: usize, reply: ReplyView, fd: i32)
        requires
            !self.sources.contains_key(vacant),
            self.holds_stream(fd),
        ensures
            self.step(vacant, reply).next.holds_stream(fd) || (self.state is Closing
                && self.stream_in_hand() == Some(fd) && self.step(vacant, reply).request
                matches RequestView::Deliver(EventView::FdClosed { .. })),
    {
        let o = self.step(vacant, reply);
        if self.registers_stream(fd) {
            let k = choose|k: usize|
                self.sources.contains_key(k) && (#[trigger] self.sources[k]
                    matches SourceView::ReadableChild(c) && c.fd == fd);
            if o.next.sources.contains_key(k) {
                assert(o.next.sources[k] == self.sources[k]);
            } else {
                // The stream left the registry: it is the one in hand.
                assert(o.next.stream_in_hand() == Some(fd));
            }
        } else if o.next.stream_in_hand() != Some(fd) && self.state is DrainingChildOut {
            // The stream went back to the registry, under the vacant token.
            assert(o.next.sources.contains_key(vacant));
            assert(o.next.sources[vacant] matches SourceView::ReadableChild(c) && c.fd == fd);
        }
    }

    /// The pids that `pids` lists are those of which no termination was
    /// reported: for a pid under which exactly one child was taken charge
    /// of, a termination is owed exactly if none has been reported.
    pub proof fn law_pids_are_unreported(self, inputs: Seq<Input>, pid: Pid)
        requires
            self.inv(),
            self.owed(pid) == 0,
            self.orderly(inputs),
            MuxerView::spawns(inputs, pid) == 1,
        ensures
            self.run(inputs).owes(pid) <==> self.terminations(inputs, pid) == 0,
    {
        self.law_terminations_accounted(inputs, pid);
        self.run(inputs).ward().lemma_owed(pid);
    }
}

} // verus!
