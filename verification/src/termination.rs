//! The source that accounts for children that have ended.
//!
//! The source does not wait on any child. Whoever owns the child handles
//! tries each live child and reports which have ended and how; the source
//! moves those from the live children to the terminations that are owed to
//! the user, and publishes their statuses.

use crate::children::{Children, MuxerChildView};
use crate::pid::Pid;
use crate::source::SourceInstruction;
use crate::status::ExitStatus;
use vstd::prelude::*;

verus! {

/// A child that has ended and whose end was not reported yet.
#[derive(Debug)]
pub struct Termination {
    pub pid: Pid,
    pub prog_path: String,
    pub exit_status: ExitStatus,
    /// Where the status was published.
    pub ticket: usize,
}

/// A termination as contracts see it.
pub struct TerminationView {
    pub pid: Pid,
    pub prog_path: Seq<char>,
    pub exit_status: ExitStatus,
    pub ticket: usize,
}

impl View for Termination {
    type V = TerminationView;

    open spec fn view(&self) -> TerminationView {
        TerminationView {
            pid: self.pid,
            prog_path: self.prog_path@,
            exit_status: self.exit_status,
            ticket: self.ticket,
        }
    }
}

/// What a reaping works on: the live children, the terminations owed, and
/// the published statuses.
pub struct Ward {
    pub children: Map<u32, MuxerChildView>,
    pub waits: Seq<TerminationView>,
    pub statuses: Seq<Option<ExitStatus>>,
}

impl Ward {
    /// The ward made of the live children, the queued terminations and the
    /// published statuses.
    pub open spec fn of(
        children: Map<u32, MuxerChildView>,
        buffer: Seq<Termination>,
        statuses: Seq<Option<ExitStatus>>,
    ) -> Ward {
        Ward { children, waits: buffer.map_values(|t: Termination| t@), statuses }
    }

    /// The ward after the child `pid` was found to have ended with `status`.
    /// A pid that is no live child changes nothing.
    pub open spec fn reap(self, pid: Pid, status: ExitStatus) -> Ward {
        if self.children.contains_key(pid.inner) {
            let child = self.children[pid.inner];
            Ward {
                children: self.children.remove(pid.inner),
                waits: self.waits.push(
                    TerminationView {
                        pid: child.pid,
                        prog_path: child.prog_path,
                        exit_status: status,
                        ticket: child.ticket,
                    },
                ),
                statuses: if child.ticket < self.statuses.len() {
                    self.statuses.update(child.ticket as int, Some(status))
                } else {
                    self.statuses
                },
            }
        } else {
            self
        }
    }

    /// The ward after each of `exits` was accounted for, in order.
    pub open spec fn reap_all(self, exits: Seq<(Pid, ExitStatus)>) -> Ward
        decreases exits.len(),
    {
        if exits.len() == 0 {
            self
        } else {
            self.reap_all(exits.drop_last()).reap(exits.last().0, exits.last().1)
        }
    }

    /// What holds of every ward that the multiplexer builds: each live child
    /// is filed under its own pid and holds a ticket of its own under which
    /// nothing is published yet, and under the ticket of each queued
    /// termination its status is published.
    pub open spec fn inv(self) -> bool {
        &&& forall|p: u32| #[trigger]
            self.children.contains_key(p) ==> {
                &&& self.children[p].pid.inner == p
                &&& self.children[p].ticket < self.statuses.len()
                &&& self.statuses[self.children[p].ticket as int].is_none()
            }
        &&& forall|p: u32, q: u32|
            #![trigger self.children[p], self.children[q]]
            self.children.contains_key(p) && self.children.contains_key(q) && p != q
                ==> self.children[p].ticket != self.children[q].ticket
        &&& forall|i: int|
            0 <= i < self.waits.len() ==> {
                &&& (#[trigger] self.waits[i]).ticket < self.statuses.len()
                &&& self.statuses[self.waits[i].ticket as int] == Some(self.waits[i].exit_status)
            }
    }

    /// Reaping one child keeps the invariant.
    pub proof fn lemma_reap_inv(self, pid: Pid, status: ExitStatus)
        requires
            self.inv(),
        ensures
            self.reap(pid, status).inv(),
            self.reap(pid, status).statuses.len() == self.statuses.len(),
    {
        let after = self.reap(pid, status);
        if self.children.contains_key(pid.inner) {
            let child = self.children[pid.inner];
            assert forall|i: int| 0 <= i < after.waits.len() implies {
                &&& (#[trigger] after.waits[i]).ticket < after.statuses.len()
                &&& after.statuses[after.waits[i].ticket as int] == Some(after.waits[i].exit_status)
            } by {
                if i < self.waits.len() {
                    assert(after.waits[i] == self.waits[i]);
                }
            }
            assert forall|p: u32| #[trigger] after.children.contains_key(p) implies {
                &&& after.children[p].pid.inner == p
                &&& after.children[p].ticket < after.statuses.len()
                &&& after.statuses[after.children[p].ticket as int].is_none()
            } by {
                assert(self.children.contains_key(p));
                assert(self.children[p].ticket != self.children[pid.inner].ticket);
            }
        }
    }

    /// Reaping any number of children keeps the invariant.
    pub proof fn lemma_reap_all_inv(self, exits: Seq<(Pid, ExitStatus)>)
        requires
            self.inv(),
        ensures
            self.reap_all(exits).inv(),
            self.reap_all(exits).statuses.len() == self.statuses.len(),
        decreases exits.len(),
    {
        if exits.len() > 0 {
            self.lemma_reap_all_inv(exits.drop_last());
            self.reap_all(exits.drop_last()).lemma_reap_inv(exits.last().0, exits.last().1);
        }
    }

    /// The ward after the source handled one readiness: nothing changes
    /// unless a child-termination signal was pending.
    pub open spec fn handled(self, signalled: bool, exits: Seq<(Pid, ExitStatus)>) -> Ward {
        if signalled {
            self.reap_all(exits)
        } else {
            self
        }
    }
}

/// The child-termination source. It holds nothing of its own: what it works
/// on is handed to it.
#[derive(Debug)]
pub struct ChildTerminationSource {}

impl ChildTerminationSource {
    /// The source.
    pub fn new() -> ChildTerminationSource {
        ChildTerminationSource {  }
    }

    /// Accounts for the children that ended. `signalled` says whether a
    /// child-termination signal was pending; `exits` names the children that a
    /// non-blocking wait found ended, each with its status. For each of them
    /// that is a live child, in order: its status is published under its
    /// ticket, it leaves the live children, and its termination is queued.
    /// The source always asks to be armed again.
    pub fn handle_event(
        &mut self,
        signalled: bool,
        exits: &Vec<(Pid, ExitStatus)>,
        children: &mut Children,
        buffer: &mut Vec<Termination>,
        statuses: &mut Vec<Option<ExitStatus>>,
    ) -> (instruction: SourceInstruction)
        ensures
            instruction == SourceInstruction::Reregister,
            Ward::of(final(children)@, final(buffer)@, final(statuses)@) == Ward::of(
                old(children)@,
                old(buffer)@,
                old(statuses)@,
            ).handled(signalled, exits@),
    {
        let ghost start = Ward::of(children@, buffer@, statuses@);
        if signalled {
            let mut i: usize = 0;
            while i < exits.len()
                invariant
                    i <= exits.len(),
                    Ward::of(children@, buffer@, statuses@) == start.reap_all(
                        exits@.subrange(0, i as int),
                    ),
                decreases exits.len() - i,
            {
                let ghost before = Ward::of(children@, buffer@, statuses@);
                let (pid, status) = exits[i];
                match children.remove(pid) {
                    Some(child) => {
                        if child.ticket < statuses.len() {
                            statuses.set(child.ticket, Some(status));
                        }
                        buffer.push(
                            Termination {
                                pid: child.pid,
                                prog_path: child.prog_path,
                                exit_status: status,
                                ticket: child.ticket,
                            },
                        );
                    },
                    None => {},
                }
                i += 1;
                proof {
                    let upto = exits@.subrange(0, i as int);
                    assert(upto.drop_last() =~= exits@.subrange(0, i - 1));
                    assert(upto.last() == exits@[i - 1]);
                    let after = Ward::of(children@, buffer@, statuses@);
                    assert(after.waits =~= before.reap(pid, status).waits);
                    assert(after.statuses =~= before.reap(pid, status).statuses);
                    assert(after.children =~= before.reap(pid, status).children);
                    assert(after == before.reap(pid, status));
                    assert(start.reap_all(upto) == start.reap_all(upto.drop_last()).reap(
                        upto.last().0,
                        upto.last().1,
                    ));
                }
            }
            assert(exits@.subrange(0, exits.len() as int) =~= exits@);
        }
        SourceInstruction::Reregister
    }
}

} // verus!
