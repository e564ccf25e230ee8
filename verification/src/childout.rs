//! The line reader over one captured pipe of a child.
//!
//! The reader never touches the pipe. Whoever owns the descriptor reads from
//! it and feeds what arrived; the reader cuts it into lines.

use crate::lines::{
    after_head, complete_lines, first_newline, has_newline, head_line, lemma_first_newline,
    lemma_first_newline_at, lemma_first_newline_prepend, lemma_residue_shape, lines_of, residue,
    NEWLINE,
};
use crate::pid::Pid;
use vstd::prelude::*;

verus! {

/// Which of a child's two output pipes a stream is.
#[derive(Debug, Clone, Copy, PartialEq, Eq, Structural)]
pub enum FdTag {
    Stderr,
    Stdout,
}

/// What [`ChildOut::read_line`] found.
#[derive(Debug)]
pub enum ReadLine {
    /// One line, with its newline unless the stream closed behind it.
    Line(Vec<u8>),
    /// No complete line is buffered: the pipe has to be read again.
    Starved,
    /// The writer closed the pipe and every byte has been handed out.
    EndOfStream,
}

/// A stream as contracts see it.
pub struct ChildOutView {
    pub pid: Pid,
    pub prog_path: Seq<char>,
    pub tag: FdTag,
    pub fd: i32,
    /// Bytes that arrived and were not handed out yet, in arrival order.
    pub carry: Seq<u8>,
    /// Whether the writer's end is known to be closed.
    pub closed: bool,
}

impl ChildOutView {
    /// A stream on which nothing has arrived.
    pub open spec fn fresh(fd: i32, pid: Pid, prog_path: Seq<char>, tag: FdTag) -> ChildOutView {
        ChildOutView { pid, prog_path, tag, fd, carry: Seq::empty(), closed: false }
    }

    /// The stream after `chunk` arrived.
    pub open spec fn fed(self, chunk: Seq<u8>) -> ChildOutView {
        ChildOutView { carry: self.carry + chunk, ..self }
    }

    /// The stream after the writer closed its end.
    pub open spec fn shut(self) -> ChildOutView {
        ChildOutView { closed: true, ..self }
    }

    /// The line that can be handed out now, if there is one: the first
    /// complete line, or, behind a closed pipe, whatever is left.
    pub open spec fn next_line(self) -> Option<Seq<u8>> {
        if has_newline(self.carry) {
            Some(head_line(self.carry))
        } else if self.closed && self.carry.len() > 0 {
            Some(self.carry)
        } else {
            None
        }
    }

    /// The stream after one `read_line`.
    pub open spec fn advanced(self) -> ChildOutView {
        if has_newline(self.carry) {
            ChildOutView { carry: after_head(self.carry), ..self }
        } else if self.closed {
            ChildOutView { carry: Seq::empty(), ..self }
        } else {
            self
        }
    }

    /// The lines that `read_line` hands out, one after the other, until the
    /// pipe has to be read again or the stream has ended.
    pub open spec fn ready(self) -> Seq<Seq<u8>> {
        if self.closed {
            lines_of(self.carry)
        } else {
            complete_lines(self.carry)
        }
    }

    /// Lines are handed out in the order in which they were written, none
    /// twice and none left out: each line that `read_line` hands out is the
    /// first of those that are ready, and the others are ready afterwards.
    pub proof fn law_lines_in_order(self)
        ensures
            match self.next_line() {
                Some(line) => self.ready() == seq![line] + self.advanced().ready(),
                None => self.ready().len() == 0,
            },
    {
        lemma_first_newline(self.carry);
        lemma_residue_shape(self.carry);
        if has_newline(self.carry) {
            if self.closed {
                let rest = after_head(self.carry);
                assert(residue(self.carry) == residue(rest));
                if residue(rest).len() == 0 {
                } else {
                    assert(lines_of(self.carry) =~= seq![head_line(self.carry)] + lines_of(rest));
                }
            }
        } else if self.closed {
            assert(residue(self.carry) == self.carry);
            assert(complete_lines(self.carry) =~= Seq::<Seq<u8>>::empty());
            if self.carry.len() > 0 {
                assert(lines_of(self.carry) =~= seq![self.carry]);
                assert(lines_of(Seq::<u8>::empty()) =~= Seq::<Seq<u8>>::empty());
                assert(self.advanced().ready() =~= Seq::<Seq<u8>>::empty());
                assert(self.ready() =~= seq![self.carry] + self.advanced().ready());
            }
        }
    }
}

/// The reader of one pipe: who writes to it, which pipe it is, and the bytes
/// that arrived but do not yet make up a line that was handed out.
#[derive(Debug)]
pub struct ChildOut {
    pub pid: Pid,
    pub prog_path: String,
    pub tag: FdTag,
    /// The line being put together: bytes without a newline.
    pub buf: Vec<u8>,
    /// The descriptor number of the pipe's read end. It stands for the pipe.
    pub fd: i32,
    /// What arrived last.
    pub inbox: Vec<u8>,
    /// How much of `inbox` has been looked at: `inbox[pos..]` has not.
    pub pos: usize,
    /// Whether a read has shown the writer's end closed.
    pub closed: bool,
}

impl View for ChildOut {
    type V = ChildOutView;

    open spec fn view(&self) -> ChildOutView {
        ChildOutView {
            pid: self.pid,
            prog_path: self.prog_path@,
            tag: self.tag,
            fd: self.fd,
            carry: self.carry(),
            closed: self.closed,
        }
    }
}

/// Appends `src[from..to]` to `dst`.
fn append_range(dst: &mut Vec<u8>, src: &Vec<u8>, from: usize, to: usize)
    requires
        from <= to <= src.len(),
    ensures
        final(dst)@ == old(dst)@ + src@.subrange(from as int, to as int),
{
    let mut i: usize = from;
    while i < to
        invariant
            from <= i <= to <= src.len(),
            dst@ == old(dst)@ + src@.subrange(from as int, i as int),
        decreases to - i,
    {
        dst.push(src[i]);
        i += 1;
        assert(dst@ =~= old(dst)@ + src@.subrange(from as int, i as int));
    }
}

impl ChildOut {
    /// The bytes that arrived and were not handed out yet.
    pub open spec fn carry(&self) -> Seq<u8> {
        self.buf@ + self.inbox@.subrange(self.pos as int, self.inbox.len() as int)
    }

    /// The reader's invariant: the line being put together holds no newline.
    pub open spec fn wf(&self) -> bool {
        &&& self.pos <= self.inbox.len()
        &&& !has_newline(self.buf@)
    }

    /// The reader of the pipe with descriptor `fd`, which is the `tag` output
    /// of the child `pid` running `prog_path`.
    pub fn from_pipe(fd: i32, pid: Pid, prog_path: String, tag: FdTag) -> (out: ChildOut)
        ensures
            out.wf(),
            out@ == ChildOutView::fresh(fd, pid, prog_path@, tag),
            out.buf@.len() == 0,
    {
        let out = ChildOut {
            pid,
            prog_path,
            tag,
            buf: Vec::new(),
            fd,
            inbox: Vec::new(),
            pos: 0,
            closed: false,
        };
        assert(out.carry() =~= Seq::<u8>::empty());
        out
    }

    /// Takes in bytes that were read from the pipe.
    pub fn feed(&mut self, chunk: Vec<u8>)
        requires
            old(self).wf(),
        ensures
            final(self).wf(),
            final(self)@ == old(self)@.fed(chunk@),
    {
        let ghost arrived = chunk@;
        let mut chunk = chunk;
        if self.pos >= self.inbox.len() {
            self.inbox = chunk;
            self.pos = 0;
        } else {
            self.inbox.append(&mut chunk);
        }
        assert(self.carry() =~= old(self).carry() + arrived);
    }

    /// Records that the writer closed the pipe: a read returned no bytes.
    pub fn close(&mut self)
        requires
            old(self).wf(),
        ensures
            final(self).wf(),
            final(self)@ == old(self)@.shut(),
    {
        self.closed = true;
    }

    /// Hands out the next line, newline included. Behind a closed pipe the
    /// bytes after the last newline are a line too, and after them comes
    /// `EndOfStream`. Where no line is ready the result is `Starved`.
    pub fn read_line(&mut self) -> (r: ReadLine)
        requires
            old(self).wf(),
        ensures
            final(self).wf(),
            final(self)@ == old(self)@.advanced(),
            match r {
                ReadLine::Line(line) => old(self)@.next_line() == Some(line@),
                ReadLine::Starved => old(self)@.next_line().is_none() && !old(self)@.closed,
                ReadLine::EndOfStream => old(self)@.next_line().is_none() && old(self)@.closed,
            },
    {
        let n = self.inbox.len();
        let mut i: usize = self.pos;
        while i < n && self.inbox[i] != NEWLINE
            invariant
                self.pos <= i <= n,
                n == self.inbox.len(),
                forall|j: int| self.pos <= j < i ==> self.inbox@[j] != NEWLINE,
            decreases n - i,
        {
            i += 1;
        }
        let ghost unread = self.inbox@.subrange(self.pos as int, n as int);
        proof {
            lemma_first_newline_at(unread, i - self.pos);
            lemma_first_newline_prepend(self.buf@, unread);
        }
        if i < n {
            let end = i + 1;
            append_range(&mut self.buf, &self.inbox, self.pos, end);
            self.pos = end;
            let mut line: Vec<u8> = Vec::new();
            core::mem::swap(&mut line, &mut self.buf);
            proof {
                assert(line@ =~= head_line(old(self).carry()));
                assert(self.carry() =~= after_head(old(self).carry()));
                assert(first_newline(self.buf@) == 0);
            }
            ReadLine::Line(line)
        } else {
            append_range(&mut self.buf, &self.inbox, self.pos, n);
            self.inbox.clear();
            self.pos = 0;
            proof {
                assert(self.buf@ =~= old(self).carry());
                assert(self.carry() =~= old(self).carry());
            }
            if !self.closed {
                ReadLine::Starved
            } else if self.buf.len() > 0 {
                let mut line: Vec<u8> = Vec::new();
                core::mem::swap(&mut line, &mut self.buf);
                proof {
                    assert(self.carry() =~= Seq::<u8>::empty());
                    assert(first_newline(self.buf@) == 0);
                }
                ReadLine::Line(line)
            } else {
                assert(self.carry() =~= Seq::<u8>::empty());
                ReadLine::EndOfStream
            }
        }
    }
}

} // verus!
