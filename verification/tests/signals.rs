//! The signal source and the termination source.

use process_muxer::signal::{SIGHUP, SIGINT, SIGTERM};
use process_muxer::children::Children;
use process_muxer::{
    ChildTerminationSource, EventStream, ExitStatus, MuxerChild, Pid, Signal, SignalSource,
    SourceInstruction, Termination,
};

fn drain(source: &mut SignalSource) -> Vec<Signal> {
    let mut out = Vec::new();
    loop {
        match source.next() {
            EventStream::Emit(s) => out.push(s),
            EventStream::Drained(instruction) => {
                assert_eq!(instruction, SourceInstruction::Reregister);
                return out;
            }
        }
    }
}

#[test]
fn signal_numbers() {
    assert_eq!(SIGHUP, 1);
    assert_eq!(SIGINT, 2);
    assert_eq!(SIGTERM, 15);
    assert_eq!(Signal::from_signum(1), Some(Signal::Hangup));
    assert_eq!(Signal::from_signum(2), Some(Signal::Interrupt));
    assert_eq!(Signal::from_signum(15), Some(Signal::Terminate));
    assert_eq!(Signal::from_signum(0), None);
    assert_eq!(Signal::from_signum(9), None);
    assert_eq!(Signal::from_signum(17), None);
    assert_eq!(Signal::from_signum(-2), None);
}

#[test]
fn signum_is_the_inverse_of_from_signum() {
    for s in [Signal::Hangup, Signal::Interrupt, Signal::Terminate] {
        assert_eq!(Signal::from_signum(s.signum()), Some(s));
    }
    assert_eq!(Signal::Terminate.signum(), 15);
}

#[test]
fn a_new_source_waits() {
    let mut source = SignalSource::new();
    assert!(source.is_waiting());
    assert_eq!(source.next(), EventStream::Drained(SourceInstruction::Reregister));
    assert!(source.is_waiting());
}

#[test]
fn a_snapshot_is_handed_out_in_order() {
    let mut source = SignalSource::new();
    assert_eq!(source.load(&vec![15, 1, 2]), Ok(()));
    assert!(!source.is_waiting());
    assert_eq!(source.next(), EventStream::Emit(Signal::Terminate));
    assert_eq!(source.next(), EventStream::Emit(Signal::Hangup));
    assert_eq!(source.next(), EventStream::Emit(Signal::Interrupt));
    assert_eq!(source.next(), EventStream::Drained(SourceInstruction::Reregister));
    assert!(source.is_waiting());
}

#[test]
fn a_signal_is_handed_out_once() {
    let mut source = SignalSource::new();
    assert_eq!(source.load(&vec![2, 2, 15, 2, 15]), Ok(()));
    assert_eq!(drain(&mut source), vec![Signal::Interrupt, Signal::Terminate]);
}

#[test]
fn an_empty_snapshot_drains_at_once() {
    let mut source = SignalSource::new();
    assert_eq!(source.load(&Vec::new()), Ok(()));
    assert!(!source.is_waiting());
    assert_eq!(drain(&mut source), Vec::new());
    assert!(source.is_waiting());
}

#[test]
fn a_second_snapshot_queues_behind_the_first() {
    let mut source = SignalSource::new();
    assert_eq!(source.load(&vec![2, 1]), Ok(()));
    assert_eq!(source.next(), EventStream::Emit(Signal::Interrupt));
    // Interrupt was handed out: it may be queued again. Hangup still waits.
    assert_eq!(source.load(&vec![1, 2, 15]), Ok(()));
    assert_eq!(drain(&mut source), vec![Signal::Hangup, Signal::Interrupt, Signal::Terminate]);
}

#[test]
fn an_unknown_signal_is_refused() {
    let mut source = SignalSource::new();
    assert_eq!(source.load(&vec![2, 10, 12]), Err(10));
    assert!(source.is_waiting());
    assert_eq!(source.load(&vec![1]), Ok(()));
    assert_eq!(source.load(&vec![2, 9]), Err(9));
    assert_eq!(drain(&mut source), vec![Signal::Hangup]);
}

fn child(pid: u32, ticket: usize) -> MuxerChild {
    MuxerChild { pid: Pid::new(pid), prog_path: format!("/bin/p{}", pid), ticket }
}

#[test]
fn handle_event_moves_ended_children_to_the_queue() {
    let mut source = ChildTerminationSource::new();
    let mut children = Children::new();
    children.insert(child(10, 0));
    children.insert(child(11, 1));
    children.insert(child(12, 2));
    let mut buffer: Vec<Termination> = Vec::new();
    let mut statuses = vec![None, None, None];
    let exits = vec![(Pid::new(12), ExitStatus::from_raw(7)), (Pid::new(10), ExitStatus::from_raw(0))];
    let instruction =
        source.handle_event(true, &exits, &mut children, &mut buffer, &mut statuses);
    assert_eq!(instruction, SourceInstruction::Reregister);
    assert_eq!(children.pids(), vec![Pid::new(11)]);
    assert_eq!(buffer.len(), 2);
    assert_eq!(buffer[0].pid, Pid::new(12));
    assert_eq!(buffer[0].prog_path, "/bin/p12");
    assert_eq!(buffer[0].exit_status, ExitStatus::from_raw(7));
    assert_eq!(buffer[0].ticket, 2);
    assert_eq!(buffer[1].pid, Pid::new(10));
    assert_eq!(buffer[1].exit_status, ExitStatus::from_raw(0));
    assert_eq!(statuses, vec![Some(ExitStatus::from_raw(0)), None, Some(ExitStatus::from_raw(7))]);
}

#[test]
fn handle_event_without_signal_does_nothing() {
    let mut source = ChildTerminationSource::new();
    let mut children = Children::new();
    children.insert(child(10, 0));
    let mut buffer: Vec<Termination> = Vec::new();
    let mut statuses = vec![None];
    let exits = vec![(Pid::new(10), ExitStatus::from_raw(0))];
    let instruction =
        source.handle_event(false, &exits, &mut children, &mut buffer, &mut statuses);
    assert_eq!(instruction, SourceInstruction::Reregister);
    assert_eq!(children.pids(), vec![Pid::new(10)]);
    assert!(buffer.is_empty());
    assert_eq!(statuses, vec![None]);
}

#[test]
fn handle_event_passes_over_strangers_and_repeats() {
    let mut source = ChildTerminationSource::new();
    let mut children = Children::new();
    children.insert(child(10, 0));
    let mut buffer: Vec<Termination> = Vec::new();
    let mut statuses = vec![None];
    let exits = vec![
        (Pid::new(99), ExitStatus::from_raw(1)),
        (Pid::new(10), ExitStatus::from_raw(2)),
        (Pid::new(10), ExitStatus::from_raw(3)),
    ];
    source.handle_event(true, &exits, &mut children, &mut buffer, &mut statuses);
    assert_eq!(buffer.len(), 1);
    assert_eq!(buffer[0].exit_status, ExitStatus::from_raw(2));
    assert_eq!(statuses, vec![Some(ExitStatus::from_raw(2))]);
    assert_eq!(children.pids(), Vec::new());
}

#[test]
fn children_are_kept_by_pid() {
    let mut children = Children::new();
    children.insert(child(5, 0));
    children.insert(child(3, 1));
    children.insert(child(5, 2));
    assert_eq!(children.pids(), vec![Pid::new(3), Pid::new(5)]);
    let gone = children.remove(Pid::new(5)).unwrap();
    assert_eq!(gone.ticket, 2);
    assert!(children.remove(Pid::new(5)).is_none());
    assert_eq!(children.pids(), vec![Pid::new(3)]);
}

#[test]
fn signal_numbers_are_the_operating_systems() {
    assert_eq!(SIGHUP, signal_hook::consts::SIGHUP);
    assert_eq!(SIGINT, signal_hook::consts::SIGINT);
    assert_eq!(SIGTERM, signal_hook::consts::SIGTERM);
    assert_eq!(Signal::Hangup.signum(), libc::SIGHUP);
    assert_eq!(Signal::Interrupt.signum(), libc::SIGINT);
    assert_eq!(Signal::Terminate.signum(), libc::SIGTERM);
}
