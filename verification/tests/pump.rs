//! The event pump, driven by a scripted operating system.

use process_muxer::{
    Event, ExitStatus, Fault, FdTag, Handle, Muxer, Pid, Registration, Reply, Request, Signal,
};
use std::collections::VecDeque;

/// What the scripted poller does when it is asked.
enum Poll {
    Ready(Vec<Handle>),
    Interrupted,
    Failed,
}

/// A scripted operating system: what each poll, read, reaping and signal
/// snapshot will find, in order.
struct Os {
    tokens: Vec<Registration>,
    polls: VecDeque<Poll>,
    reads: Vec<(i32, VecDeque<Reply>)>,
    reaps: VecDeque<(bool, Vec<(Pid, ExitStatus)>)>,
    snapshots: VecDeque<Vec<i32>>,
    /// The requests that were carried out, in words.
    log: Vec<String>,
    /// The fault that ended the run, if one did.
    fault: Option<Fault>,
}

impl Os {
    fn new(regs: Vec<Registration>) -> Os {
        Os {
            tokens: regs,
            polls: VecDeque::new(),
            reads: Vec::new(),
            reaps: VecDeque::new(),
            snapshots: VecDeque::new(),
            log: Vec::new(),
            fault: None,
        }
    }

    fn register(&mut self, reg: Registration) {
        self.tokens.retain(|r| r.source != reg.source);
        self.tokens.push(reg);
    }

    fn token(&self, source: Handle) -> usize {
        for r in self.tokens.iter() {
            if r.source == source {
                return r.token;
            }
        }
        panic!("{:?} is not registered", source)
    }

    fn pipe(&mut self, fd: i32, replies: Vec<Reply>) {
        self.reads.push((fd, replies.into_iter().collect()));
    }

    fn read(&mut self, fd: i32) -> Reply {
        for (f, replies) in self.reads.iter_mut() {
            if *f == fd {
                return replies.pop_front().unwrap_or(Reply::WouldBlock);
            }
        }
        panic!("no pipe {}", fd)
    }
}

/// Pumps until the script of polls is used up or a fault comes, and returns
/// the events in the order in which they were delivered.
fn run(muxer: &mut Muxer, os: &mut Os) -> Vec<Event> {
    let mut events = Vec::new();
    let mut reply = Reply::Resume;
    loop {
        match muxer.pump(reply) {
            Request::Poll => match os.polls.pop_front() {
                None => return events,
                Some(Poll::Ready(sources)) => {
                    os.log.push(format!("poll"));
                    reply = Reply::Ready(sources.iter().map(|s| os.token(*s)).collect());
                }
                Some(Poll::Interrupted) => {
                    os.log.push(format!("poll interrupted"));
                    reply = Reply::Interrupted;
                }
                Some(Poll::Failed) => {
                    os.log.push(format!("poll failed"));
                    reply = Reply::Failed;
                }
            },
            Request::Reap => {
                os.log.push(format!("reap"));
                let (signalled, exits) = os.reaps.pop_front().unwrap_or((false, Vec::new()));
                reply = Reply::Reaped { signalled, exits };
            }
            Request::Read { fd } => {
                os.log.push(format!("read {}", fd));
                reply = os.read(fd);
            }
            Request::Snapshot => {
                os.log.push(format!("snapshot"));
                reply = Reply::Snapshot(os.snapshots.pop_front().unwrap_or_default());
            }
            Request::Reregister(reg) => {
                os.log.push(format!("reregister {:?}", reg.source));
                os.register(reg);
                reply = Reply::Resume;
            }
            Request::Deregister(source) => {
                os.log.push(format!("deregister {:?}", source));
                os.tokens.retain(|r| r.source != source);
                reply = Reply::Resume;
            }
            Request::Deliver(event) => {
                os.log.push(format!("deliver"));
                events.push(event);
                reply = Reply::Resume;
            }
            Request::Fault(fault) => {
                os.fault = Some(fault);
                return events;
            }
        }
    }
}

/// A multiplexer with one child whose two pipes are captured.
fn with_child(pid: u32, out: i32, err: i32) -> (Muxer, Os) {
    let (mut muxer, regs) = Muxer::new();
    let mut os = Os::new(regs);
    let spawned = muxer.spawn(Pid::new(pid), String::from("/bin/prog"), Some(out), Some(err));
    os.register(spawned.stdout.unwrap());
    os.register(spawned.stderr.unwrap());
    (muxer, os)
}

fn wrote(events: &[Event], tag: FdTag) -> Vec<String> {
    let mut lines = Vec::new();
    for e in events {
        if let Event::ChildWrote { tag: t, line, .. } = e {
            if *t == tag {
                lines.push(line.clone());
            }
        }
    }
    lines
}

fn count_closed(events: &[Event], tag: FdTag) -> usize {
    events.iter().filter(|e| matches!(e, Event::FdClosed { tag: t, .. } if *t == tag)).count()
}

fn statuses(events: &[Event]) -> Vec<(u32, i32)> {
    let mut out = Vec::new();
    for e in events {
        if let Event::ChildTerminated { pid, exit_status, .. } = e {
            out.push((pid.inner, exit_status.raw));
        }
    }
    out
}

fn position(events: &[Event], pred: impl Fn(&Event) -> bool) -> usize {
    events.iter().position(|e| pred(e)).expect("the event was delivered")
}

#[test]
fn new_registers_reaper_and_signals() {
    let (muxer, regs) = Muxer::new();
    assert_eq!(regs.len(), 2);
    assert_eq!(regs[0], Registration { source: Handle::Reaper, token: 0 });
    assert_eq!(regs[1].source, Handle::Signals);
    assert_ne!(regs[1].token, 0);
    assert_eq!(muxer.pids(), Vec::new());
    assert_ne!(muxer.vacant_token(), 0);
    assert_ne!(muxer.vacant_token(), regs[1].token);
}

#[test]
fn without_signals_registers_reaper_only() {
    let (_muxer, regs) = Muxer::without_signals();
    assert_eq!(regs, vec![Registration { source: Handle::Reaper, token: 0 }]);
}

#[test]
fn spawn_registers_each_captured_pipe() {
    let (mut muxer, regs) = Muxer::new();
    let next = muxer.vacant_token();
    let spawned = muxer.spawn(Pid::new(7), String::from("/bin/cat"), Some(10), Some(11));
    let out = spawned.stdout.unwrap();
    let err = spawned.stderr.unwrap();
    assert_eq!(out.source, Handle::Pipe(10));
    assert_eq!(err.source, Handle::Pipe(11));
    assert_eq!(out.token, next);
    assert_ne!(out.token, err.token);
    for r in regs.iter() {
        assert_ne!(r.token, out.token);
        assert_ne!(r.token, err.token);
    }
    assert_eq!(spawned.info.pid, Pid::new(7));
    assert_eq!(spawned.info.program(), "/bin/cat");
    assert_eq!(spawned.info.exit_status(&muxer), None);
    assert_eq!(muxer.pids(), vec![Pid::new(7)]);
    assert_eq!(muxer.live_pids(), vec![Pid::new(7)]);
}

#[test]
fn spawn_without_pipes_registers_nothing() {
    let (mut muxer, _regs) = Muxer::new();
    let spawned = muxer.spawn(Pid::new(8), String::from("/bin/true"), None, None);
    assert_eq!(spawned.stdout, None);
    assert_eq!(spawned.stderr, None);
    assert_eq!(muxer.pids(), vec![Pid::new(8)]);
}

#[test]
fn first_request_is_a_poll() {
    let (mut muxer, _regs) = Muxer::new();
    assert!(matches!(muxer.pump(Reply::Resume), Request::Poll));
    assert!(matches!(muxer.pump(Reply::Ready(Vec::new())), Request::Poll));
}

#[test]
fn echo_one_line() {
    let (mut muxer, mut os) = with_child(100, 5, 6);
    os.pipe(5, vec![Reply::Bytes(b"hello\n".to_vec()), Reply::WouldBlock, Reply::Bytes(Vec::new())]);
    os.pipe(6, vec![Reply::Bytes(Vec::new())]);
    os.polls.push_back(Poll::Ready(vec![Handle::Pipe(5)]));
    os.polls.push_back(Poll::Ready(vec![Handle::Pipe(5), Handle::Pipe(6)]));
    os.polls.push_back(Poll::Ready(vec![Handle::Reaper]));
    os.reaps.push_back((true, vec![(Pid::new(100), ExitStatus::from_raw(0))]));
    let events = run(&mut muxer, &mut os);
    assert_eq!(os.fault, None);
    assert_eq!(events.len(), 4);
    match &events[0] {
        Event::ChildWrote { pid, prog_path, tag, line } => {
            assert_eq!(*pid, Pid::new(100));
            assert_eq!(prog_path, "/bin/prog");
            assert_eq!(*tag, FdTag::Stdout);
            assert_eq!(line, "hello\n");
        }
        other => panic!("unexpected first event {:?}", other),
    }
    assert_eq!(count_closed(&events, FdTag::Stdout), 1);
    assert_eq!(count_closed(&events, FdTag::Stderr), 1);
    assert_eq!(statuses(&events), vec![(100, 0)]);
    assert_eq!(muxer.pids(), Vec::new());
}

#[test]
fn interleaved_streams() {
    let (mut muxer, mut os) = with_child(100, 5, 6);
    os.pipe(5, vec![Reply::Bytes(b"A\n".to_vec()), Reply::WouldBlock, Reply::Bytes(b"C\n".to_vec())]);
    os.pipe(6, vec![Reply::Bytes(b"B\n".to_vec())]);
    os.polls.push_back(Poll::Ready(vec![Handle::Pipe(5)]));
    os.polls.push_back(Poll::Ready(vec![Handle::Pipe(6)]));
    os.polls.push_back(Poll::Ready(vec![Handle::Pipe(5)]));
    let events = run(&mut muxer, &mut os);
    assert_eq!(os.fault, None);
    assert_eq!(wrote(&events, FdTag::Stdout), vec!["A\n", "C\n"]);
    assert_eq!(wrote(&events, FdTag::Stderr), vec!["B\n"]);
}

#[test]
fn long_line() {
    let (mut muxer, mut os) = with_child(100, 5, 6);
    let mut chunks = Vec::new();
    for _ in 0..4 {
        chunks.push(Reply::Bytes(vec![b'x'; 8192]));
        chunks.push(Reply::WouldBlock);
    }
    chunks.push(Reply::Bytes(b"\n".to_vec()));
    os.pipe(5, chunks);
    for _ in 0..5 {
        os.polls.push_back(Poll::Ready(vec![Handle::Pipe(5)]));
    }
    let events = run(&mut muxer, &mut os);
    assert_eq!(os.fault, None);
    let lines = wrote(&events, FdTag::Stdout);
    assert_eq!(lines.len(), 1);
    assert_eq!(lines[0].len(), 32 * 1024 + 1);
    assert!(lines[0].ends_with('\n'));
    assert!(lines[0][..32 * 1024].bytes().all(|b| b == b'x'));
    assert_eq!(events.len(), 1);
}

#[test]
fn no_trailing_newline() {
    let (mut muxer, mut os) = with_child(100, 5, 6);
    os.pipe(5, vec![Reply::Bytes(b"partial".to_vec()), Reply::WouldBlock, Reply::Bytes(Vec::new())]);
    os.pipe(6, vec![Reply::Bytes(Vec::new())]);
    os.polls.push_back(Poll::Ready(vec![Handle::Pipe(5)]));
    os.polls.push_back(Poll::Ready(vec![Handle::Pipe(5)]));
    os.polls.push_back(Poll::Ready(vec![Handle::Pipe(6)]));
    os.polls.push_back(Poll::Ready(vec![Handle::Reaper]));
    os.reaps.push_back((true, vec![(Pid::new(100), ExitStatus::from_raw(0))]));
    let events = run(&mut muxer, &mut os);
    assert_eq!(os.fault, None);
    assert_eq!(wrote(&events, FdTag::Stdout), vec!["partial"]);
    let line = position(&events, |e| matches!(e, Event::ChildWrote { .. }));
    let closed = position(&events, |e| matches!(e, Event::FdClosed { tag: FdTag::Stdout, .. }));
    let ended = position(&events, |e| matches!(e, Event::ChildTerminated { .. }));
    assert!(line < closed);
    assert!(closed < ended);
    assert_eq!(count_closed(&events, FdTag::Stdout), 1);
}

#[test]
fn residue_and_close_in_one_read_cycle() {
    let (mut muxer, mut os) = with_child(100, 5, 6);
    os.pipe(5, vec![Reply::Bytes(b"one\ntwo".to_vec()), Reply::Bytes(Vec::new())]);
    os.polls.push_back(Poll::Ready(vec![Handle::Pipe(5)]));
    let events = run(&mut muxer, &mut os);
    assert_eq!(wrote(&events, FdTag::Stdout), vec!["one\n", "two"]);
    assert_eq!(count_closed(&events, FdTag::Stdout), 1);
    assert_eq!(events.len(), 3);
    assert!(matches!(events[2], Event::FdClosed { .. }));
    assert!(os.log.contains(&String::from("deregister Pipe(5)")));
}

#[test]
fn several_lines_in_one_chunk_are_delivered_one_by_one() {
    let (mut muxer, mut os) = with_child(100, 5, 6);
    os.pipe(5, vec![Reply::Bytes(b"a\nb\n\nc".to_vec()), Reply::Bytes(b"d\n".to_vec())]);
    os.polls.push_back(Poll::Ready(vec![Handle::Pipe(5)]));
    let events = run(&mut muxer, &mut os);
    assert_eq!(wrote(&events, FdTag::Stdout), vec!["a\n", "b\n", "\n", "cd\n"]);
}

#[test]
fn simultaneous_terminations() {
    let (mut muxer, regs) = Muxer::new();
    let mut os = Os::new(regs);
    let mut handles = Vec::new();
    for i in 0..10u32 {
        handles.push(muxer.spawn(Pid::new(200 + i), String::from("/bin/sleep"), None, None).info);
    }
    assert_eq!(muxer.pids().len(), 10);
    let exits: Vec<(Pid, ExitStatus)> =
        (0..10u32).map(|i| (Pid::new(200 + i), ExitStatus::from_raw((i as i32) << 8))).collect();
    os.polls.push_back(Poll::Ready(vec![Handle::Reaper]));
    os.reaps.push_back((true, exits));
    let events = run(&mut muxer, &mut os);
    assert_eq!(events.len(), 10);
    let mut seen = statuses(&events);
    seen.sort();
    let expected: Vec<(u32, i32)> = (0..10u32).map(|i| (200 + i, (i as i32) << 8)).collect();
    assert_eq!(seen, expected);
    assert_eq!(muxer.pids(), Vec::new());
    for (i, h) in handles.iter().enumerate() {
        assert_eq!(h.exit_status(&muxer), Some(ExitStatus::from_raw((i as i32) << 8)));
    }
}

#[test]
fn status_is_published_before_the_event() {
    let (mut muxer, regs) = Muxer::new();
    let a = muxer.spawn(Pid::new(1), String::from("a"), None, None).info;
    let b = muxer.spawn(Pid::new(2), String::from("b"), None, None).info;
    let reaper = regs[0].token;
    assert!(matches!(muxer.pump(Reply::Ready(vec![reaper])), Request::Reap));
    let exits = vec![(Pid::new(1), ExitStatus::from_raw(256)), (Pid::new(2), ExitStatus::from_raw(0))];
    let request = muxer.pump(Reply::Reaped { signalled: true, exits });
    assert!(matches!(request, Request::Reregister(Registration { source: Handle::Reaper, .. })));
    // Nothing has been reported yet, and both statuses can be read already.
    assert_eq!(a.exit_status(&muxer), Some(ExitStatus::from_raw(256)));
    assert_eq!(b.exit_status(&muxer), Some(ExitStatus::from_raw(0)));
    // Both are still owed.
    let mut owed = muxer.pids();
    owed.sort();
    assert_eq!(owed, vec![Pid::new(1), Pid::new(2)]);
    assert_eq!(muxer.live_pids(), Vec::new());
    assert_eq!(muxer.queued(), 2);
    match muxer.pump(Reply::Resume) {
        Request::Deliver(Event::ChildTerminated { pid, exit_status, prog_path }) => {
            assert_eq!(pid, Pid::new(2));
            assert_eq!(exit_status, ExitStatus::from_raw(0));
            assert_eq!(prog_path, "b");
        }
        other => panic!("unexpected request {:?}", other),
    }
    assert_eq!(muxer.pids(), vec![Pid::new(1)]);
    match muxer.pump(Reply::Resume) {
        Request::Deliver(Event::ChildTerminated { pid, exit_status, .. }) => {
            assert_eq!(pid, Pid::new(1));
            assert_eq!(exit_status, ExitStatus::from_raw(256));
        }
        other => panic!("unexpected request {:?}", other),
    }
    assert_eq!(muxer.pids(), Vec::new());
    assert!(matches!(muxer.pump(Reply::Resume), Request::Poll));
}

#[test]
fn reaping_without_a_pending_signal_changes_nothing() {
    let (mut muxer, regs) = Muxer::new();
    let a = muxer.spawn(Pid::new(1), String::from("a"), None, None).info;
    assert!(matches!(muxer.pump(Reply::Ready(vec![regs[0].token])), Request::Reap));
    let exits = vec![(Pid::new(1), ExitStatus::from_raw(0))];
    let request = muxer.pump(Reply::Reaped { signalled: false, exits });
    assert!(matches!(request, Request::Reregister(_)));
    assert_eq!(a.exit_status(&muxer), None);
    assert_eq!(muxer.pids(), vec![Pid::new(1)]);
    assert!(matches!(muxer.pump(Reply::Resume), Request::Poll));
}

#[test]
fn a_pid_that_is_no_child_is_not_reported() {
    let (mut muxer, mut os) = with_child(100, 5, 6);
    os.polls.push_back(Poll::Ready(vec![Handle::Reaper]));
    os.reaps.push_back((
        true,
        vec![
            (Pid::new(999), ExitStatus::from_raw(0)),
            (Pid::new(100), ExitStatus::from_raw(3 << 8)),
            (Pid::new(100), ExitStatus::from_raw(0)),
        ],
    ));
    let events = run(&mut muxer, &mut os);
    assert_eq!(statuses(&events), vec![(100, 3 << 8)]);
}

#[test]
fn signal_during_wait() {
    let (mut muxer, mut os) = with_child(100, 5, 6);
    os.polls.push_back(Poll::Ready(vec![Handle::Signals]));
    os.snapshots.push_back(vec![2, 2, 2]);
    let events = run(&mut muxer, &mut os);
    assert_eq!(os.fault, None);
    assert_eq!(events.len(), 1);
    assert!(matches!(events[0], Event::SignalReceived { signal: Signal::Interrupt }));
    assert!(os.log.contains(&String::from("reregister Signals")));
    // The child is still there.
    assert_eq!(muxer.pids(), vec![Pid::new(100)]);
}

#[test]
fn signals_are_mapped_naturally() {
    let (mut muxer, regs) = Muxer::new();
    let mut os = Os::new(regs);
    os.polls.push_back(Poll::Ready(vec![Handle::Signals]));
    os.snapshots.push_back(vec![1, 2, 15]);
    let events = run(&mut muxer, &mut os);
    let signals: Vec<Signal> = events
        .iter()
        .map(|e| match e {
            Event::SignalReceived { signal } => *signal,
            other => panic!("unexpected event {:?}", other),
        })
        .collect();
    assert_eq!(signals, vec![Signal::Hangup, Signal::Interrupt, Signal::Terminate]);
}

#[test]
fn interrupted_poll_is_retried() {
    let (mut muxer, mut os) = with_child(100, 5, 6);
    os.pipe(5, vec![Reply::Bytes(b"x\n".to_vec())]);
    os.polls.push_back(Poll::Interrupted);
    os.polls.push_back(Poll::Interrupted);
    os.polls.push_back(Poll::Ready(vec![Handle::Pipe(5)]));
    let events = run(&mut muxer, &mut os);
    assert_eq!(os.fault, None);
    assert_eq!(wrote(&events, FdTag::Stdout), vec!["x\n"]);
    assert_eq!(events.len(), 1);
    assert_eq!(&os.log[..3], &["poll interrupted", "poll interrupted", "poll"]);
}

#[test]
fn interrupted_read_is_retried() {
    let (mut muxer, mut os) = with_child(100, 5, 6);
    os.pipe(
        5,
        vec![Reply::Bytes(b"he".to_vec()), Reply::Interrupted, Reply::Bytes(b"llo\n".to_vec())],
    );
    os.polls.push_back(Poll::Ready(vec![Handle::Pipe(5)]));
    let events = run(&mut muxer, &mut os);
    assert_eq!(os.fault, None);
    assert_eq!(wrote(&events, FdTag::Stdout), vec!["hello\n"]);
    assert_eq!(events.len(), 1);
}

#[test]
fn poll_failure_is_fatal() {
    let (mut muxer, mut os) = with_child(100, 5, 6);
    os.polls.push_back(Poll::Failed);
    let events = run(&mut muxer, &mut os);
    assert_eq!(events.len(), 0);
    assert_eq!(os.fault, Some(Fault::Poll));
}

#[test]
fn read_failure_is_fatal() {
    let (mut muxer, mut os) = with_child(100, 5, 6);
    os.pipe(5, vec![Reply::Failed]);
    os.polls.push_back(Poll::Ready(vec![Handle::Pipe(5)]));
    let events = run(&mut muxer, &mut os);
    assert_eq!(events.len(), 0);
    assert_eq!(os.fault, Some(Fault::Read));
}

#[test]
fn unknown_token_is_a_fault() {
    let (mut muxer, _regs) = Muxer::new();
    match muxer.pump(Reply::Ready(vec![77])) {
        Request::Fault(Fault::UnknownToken(77)) => {}
        other => panic!("unexpected request {:?}", other),
    }
}

#[test]
fn invalid_utf8_is_a_fault() {
    let (mut muxer, mut os) = with_child(100, 5, 6);
    os.pipe(5, vec![Reply::Bytes(vec![0xff, 0xfe, b'\n'])]);
    os.polls.push_back(Poll::Ready(vec![Handle::Pipe(5)]));
    let events = run(&mut muxer, &mut os);
    assert_eq!(events.len(), 0);
    assert_eq!(os.fault, Some(Fault::InvalidUtf8));
}

#[test]
fn multibyte_text_split_across_reads_is_one_line() {
    let (mut muxer, mut os) = with_child(100, 5, 6);
    let text = "héllo wörld\n".as_bytes().to_vec();
    let (a, b) = text.split_at(2);
    os.pipe(5, vec![Reply::Bytes(a.to_vec()), Reply::WouldBlock, Reply::Bytes(b.to_vec())]);
    os.polls.push_back(Poll::Ready(vec![Handle::Pipe(5)]));
    os.polls.push_back(Poll::Ready(vec![Handle::Pipe(5)]));
    let events = run(&mut muxer, &mut os);
    assert_eq!(os.fault, None);
    assert_eq!(wrote(&events, FdTag::Stdout), vec!["héllo wörld\n"]);
}

#[test]
fn unexpected_signal_is_a_fault() {
    let (mut muxer, regs) = Muxer::new();
    let mut os = Os::new(regs);
    os.polls.push_back(Poll::Ready(vec![Handle::Signals]));
    os.snapshots.push_back(vec![2, 10]);
    let events = run(&mut muxer, &mut os);
    assert_eq!(events.len(), 0);
    assert_eq!(os.fault, Some(Fault::UnexpectedSignal(10)));
}

#[test]
fn a_reply_that_answers_nothing_is_a_fault() {
    let (mut muxer, _regs) = Muxer::new();
    assert!(matches!(muxer.pump(Reply::Bytes(vec![1])), Request::Fault(Fault::UnexpectedReply)));
    assert!(matches!(muxer.pump(Reply::WouldBlock), Request::Fault(Fault::UnexpectedReply)));
    assert!(matches!(muxer.pump(Reply::Snapshot(vec![2])), Request::Fault(Fault::UnexpectedReply)));
    let reaped = Reply::Reaped { signalled: true, exits: Vec::new() };
    assert!(matches!(muxer.pump(reaped), Request::Fault(Fault::UnexpectedReply)));
    // The multiplexer is none the worse for it.
    assert!(matches!(muxer.pump(Reply::Resume), Request::Poll));
}

#[test]
fn a_token_is_used_again_once_it_is_free() {
    let (mut muxer, mut os) = with_child(100, 5, 6);
    let before = os.token(Handle::Pipe(5));
    os.pipe(5, vec![Reply::WouldBlock]);
    os.polls.push_back(Poll::Ready(vec![Handle::Pipe(5)]));
    let _ = run(&mut muxer, &mut os);
    // The stream left the registry to be drained and came back under the
    // token that its leaving had freed.
    assert_eq!(os.token(Handle::Pipe(5)), before);
}

#[test]
fn the_poller_is_not_asked_while_something_is_drained() {
    let (mut muxer, mut os) = with_child(100, 5, 6);
    os.pipe(5, vec![Reply::Bytes(b"1\n2\n".to_vec())]);
    os.pipe(6, vec![Reply::Bytes(b"e\n".to_vec())]);
    os.polls.push_back(Poll::Ready(vec![Handle::Pipe(5), Handle::Pipe(6)]));
    let events = run(&mut muxer, &mut os);
    assert_eq!(events.len(), 3);
    assert_eq!(os.log.iter().filter(|l| l.as_str() == "poll").count(), 1);
    assert_eq!(os.log[0], "poll");
}

#[test]
fn abandoning_a_spawn_undoes_it() {
    let (mut muxer, _regs) = Muxer::new();
    let vacant = muxer.vacant_token();
    let spawned = muxer.spawn(Pid::new(9), String::from("/bin/cat"), Some(4), Some(5));
    assert_eq!(muxer.pids(), vec![Pid::new(9)]);
    muxer.abandon(&spawned);
    assert_eq!(muxer.pids(), Vec::new());
    // The tokens of its streams designate nothing any more.
    let token = spawned.stdout.unwrap().token;
    assert_eq!(token, vacant);
    assert!(matches!(
        muxer.pump(Reply::Ready(vec![token])),
        Request::Fault(Fault::UnknownToken(t)) if t == token
    ));
    assert_eq!(spawned.info.exit_status(&muxer), None);
}

#[test]
fn abandoning_spares_a_later_child_of_the_same_pid() {
    let (mut muxer, _regs) = Muxer::new();
    let first = muxer.spawn(Pid::new(9), String::from("a"), None, None);
    let second = muxer.spawn(Pid::new(9), String::from("b"), None, None);
    muxer.abandon(&first);
    assert_eq!(muxer.pids(), vec![Pid::new(9)]);
    muxer.abandon(&second);
    assert_eq!(muxer.pids(), Vec::new());
}
