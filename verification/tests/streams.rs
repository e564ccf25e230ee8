//! The line reader of one pipe.

use process_muxer::{ChildOut, FdTag, Pid, ReadLine};

fn stream() -> ChildOut {
    ChildOut::from_pipe(3, Pid::new(42), String::from("/bin/yes"), FdTag::Stdout)
}

/// Reads lines until the stream is starved or has ended.
fn drain(c: &mut ChildOut) -> (Vec<Vec<u8>>, bool) {
    let mut lines = Vec::new();
    loop {
        match c.read_line() {
            ReadLine::Line(l) => lines.push(l),
            ReadLine::Starved => return (lines, false),
            ReadLine::EndOfStream => return (lines, true),
        }
    }
}

fn lines_of(bytes: &[u8]) -> Vec<Vec<u8>> {
    let mut out = Vec::new();
    let mut cur = Vec::new();
    for b in bytes {
        cur.push(*b);
        if *b == b'\n' {
            out.push(std::mem::take(&mut cur));
        }
    }
    if !cur.is_empty() {
        out.push(cur);
    }
    out
}

#[test]
fn from_pipe_keeps_what_it_is_given() {
    let c = stream();
    assert_eq!(c.fd, 3);
    assert_eq!(c.pid, Pid::new(42));
    assert_eq!(c.prog_path, "/bin/yes");
    assert_eq!(c.tag, FdTag::Stdout);
    assert!(c.buf.is_empty());
    assert!(!c.closed);
}

#[test]
fn a_fresh_stream_is_starved() {
    let mut c = stream();
    assert!(matches!(c.read_line(), ReadLine::Starved));
}

#[test]
fn a_line_includes_its_newline() {
    let mut c = stream();
    c.feed(b"hello\n".to_vec());
    match c.read_line() {
        ReadLine::Line(l) => assert_eq!(l, b"hello\n"),
        other => panic!("unexpected {:?}", other),
    }
    assert!(matches!(c.read_line(), ReadLine::Starved));
}

#[test]
fn lines_come_out_in_order() {
    let mut c = stream();
    c.feed(b"a\nbb\n\nccc\nrest".to_vec());
    let (lines, ended) = drain(&mut c);
    assert!(!ended);
    assert_eq!(lines, vec![b"a\n".to_vec(), b"bb\n".to_vec(), b"\n".to_vec(), b"ccc\n".to_vec()]);
    c.feed(b" of it\n".to_vec());
    let (lines, _) = drain(&mut c);
    assert_eq!(lines, vec![b"rest of it\n".to_vec()]);
}

#[test]
fn a_partial_line_waits_for_its_newline() {
    let mut c = stream();
    c.feed(b"par".to_vec());
    assert!(matches!(c.read_line(), ReadLine::Starved));
    c.feed(b"ti".to_vec());
    assert!(matches!(c.read_line(), ReadLine::Starved));
    c.feed(b"al\nnext".to_vec());
    match c.read_line() {
        ReadLine::Line(l) => assert_eq!(l, b"partial\n"),
        other => panic!("unexpected {:?}", other),
    }
    assert!(matches!(c.read_line(), ReadLine::Starved));
}

#[test]
fn feeding_before_draining_loses_nothing() {
    let mut c = stream();
    c.feed(b"one\ntw".to_vec());
    c.feed(b"o\nthree\n".to_vec());
    let (lines, _) = drain(&mut c);
    assert_eq!(lines, vec![b"one\n".to_vec(), b"two\n".to_vec(), b"three\n".to_vec()]);
}

#[test]
fn feeding_between_reads_loses_nothing() {
    let mut c = stream();
    c.feed(b"one\ntwo\nthr".to_vec());
    match c.read_line() {
        ReadLine::Line(l) => assert_eq!(l, b"one\n"),
        other => panic!("unexpected {:?}", other),
    }
    c.feed(b"ee\n".to_vec());
    let (lines, _) = drain(&mut c);
    assert_eq!(lines, vec![b"two\n".to_vec(), b"three\n".to_vec()]);
}

#[test]
fn closing_hands_out_the_residue_then_ends() {
    let mut c = stream();
    c.feed(b"partial".to_vec());
    assert!(matches!(c.read_line(), ReadLine::Starved));
    c.close();
    match c.read_line() {
        ReadLine::Line(l) => assert_eq!(l, b"partial"),
        other => panic!("unexpected {:?}", other),
    }
    assert!(matches!(c.read_line(), ReadLine::EndOfStream));
    assert!(matches!(c.read_line(), ReadLine::EndOfStream));
}

#[test]
fn closing_an_empty_stream_ends_it_at_once() {
    let mut c = stream();
    c.close();
    assert!(matches!(c.read_line(), ReadLine::EndOfStream));
}

#[test]
fn closing_after_a_complete_line_adds_no_line() {
    let mut c = stream();
    c.feed(b"done\n".to_vec());
    c.close();
    let (lines, ended) = drain(&mut c);
    assert!(ended);
    assert_eq!(lines, vec![b"done\n".to_vec()]);
}

#[test]
fn chunking_does_not_show_in_the_lines() {
    let text = b"alpha\nbeta gamma\n\ndelta\nepsilon without end";
    for size in 1..=text.len() {
        let mut c = stream();
        let mut lines = Vec::new();
        for chunk in text.chunks(size) {
            c.feed(chunk.to_vec());
            lines.extend(drain(&mut c).0);
        }
        c.close();
        let (last, ended) = drain(&mut c);
        lines.extend(last);
        assert!(ended);
        assert_eq!(lines, lines_of(text), "chunks of {}", size);
        assert_eq!(lines.concat(), text.to_vec());
    }
}

#[test]
fn every_line_but_the_last_ends_with_the_only_newline_it_holds() {
    let mut c = stream();
    c.feed(b"x\ny\nz".to_vec());
    c.close();
    let (lines, _) = drain(&mut c);
    assert_eq!(lines.len(), 3);
    for (i, l) in lines.iter().enumerate() {
        let newlines = l.iter().filter(|b| **b == b'\n').count();
        if i + 1 < lines.len() {
            assert_eq!(newlines, 1);
            assert_eq!(*l.last().unwrap(), b'\n');
        } else {
            assert_eq!(newlines, 0);
        }
    }
}
