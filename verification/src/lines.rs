//! What it means to cut a byte stream into lines.
//!
//! A line ends with its newline. Bytes after the last newline form the
//! residue: they are a line only once the stream has closed.

use vstd::prelude::*;

verus! {

/// The byte that ends a line.
pub const NEWLINE: u8 = 10;

/// Position of the first newline of `s`, or `s.len()` where `s` has none.
pub open spec fn first_newline(s: Seq<u8>) -> int
    decreases s.len(),
{
    if s.len() == 0 {
        0
    } else if s[0] == NEWLINE {
        0
    } else {
        1 + first_newline(s.subrange(1, s.len() as int))
    }
}

/// Whether `s` holds a newline.
pub open spec fn has_newline(s: Seq<u8>) -> bool {
    first_newline(s) < s.len()
}

/// The first line of `s`, newline included; all of `s` where it has no newline.
pub open spec fn head_line(s: Seq<u8>) -> Seq<u8> {
    if has_newline(s) {
        s.subrange(0, first_newline(s) + 1)
    } else {
        s
    }
}

/// What follows the first line of `s`.
pub open spec fn after_head(s: Seq<u8>) -> Seq<u8> {
    if has_newline(s) {
        s.subrange(first_newline(s) + 1, s.len() as int)
    } else {
        Seq::empty()
    }
}

/// The lines of `s` that are complete, in order: each ends with its newline.
pub open spec fn complete_lines(s: Seq<u8>) -> Seq<Seq<u8>>
    decreases s.len(),
{
    if 0 <= first_newline(s) < s.len() {
        seq![head_line(s)] + complete_lines(after_head(s))
    } else {
        Seq::empty()
    }
}

/// What is left of `s` behind its last newline.
pub open spec fn residue(s: Seq<u8>) -> Seq<u8>
    decreases s.len(),
{
    if 0 <= first_newline(s) < s.len() {
        residue(after_head(s))
    } else {
        s
    }
}

/// All lines of a closed stream `s`: the complete ones, then the residue if
/// it is not empty.
pub open spec fn lines_of(s: Seq<u8>) -> Seq<Seq<u8>> {
    if residue(s).len() == 0 {
        complete_lines(s)
    } else {
        complete_lines(s).push(residue(s))
    }
}

/// A piece that may be handed out as a line: not empty, and without a
/// newline anywhere but at its end.
pub open spec fn is_line(l: Seq<u8>) -> bool {
    &&& l.len() > 0
    &&& forall|j: int| 0 <= j < l.len() - 1 ==> l[j] != NEWLINE
}

/// A line that ends with its newline.
pub open spec fn is_complete_line(l: Seq<u8>) -> bool {
    is_line(l) && l.last() == NEWLINE
}

/// `first_newline` is a position of `s`, no byte before it is a newline, and
/// the byte at it is one unless it is the end of `s`.
pub proof fn lemma_first_newline(s: Seq<u8>)
    ensures
        0 <= first_newline(s) <= s.len(),
        forall|j: int| 0 <= j < first_newline(s) ==> s[j] != NEWLINE,
        first_newline(s) < s.len() ==> s[first_newline(s)] == NEWLINE,
    decreases s.len(),
{
    if s.len() != 0 && s[0] != NEWLINE {
        let t = s.subrange(1, s.len() as int);
        lemma_first_newline(t);
        assert forall|j: int| 0 <= j < first_newline(s) implies s[j] != NEWLINE by {
            if j > 0 {
                assert(s[j] == t[j - 1]);
            }
        }
        if first_newline(s) < s.len() {
            assert(s[first_newline(s)] == t[first_newline(t)]);
        }
    }
}

/// The position `i` is the first newline of `s` if no byte before it is a
/// newline and it is a newline or the end of `s`.
pub proof fn lemma_first_newline_at(s: Seq<u8>, i: int)
    requires
        0 <= i <= s.len(),
        forall|j: int| 0 <= j < i ==> s[j] != NEWLINE,
        i < s.len() ==> s[i] == NEWLINE,
    ensures
        first_newline(s) == i,
{
    lemma_first_newline(s);
    let n = first_newline(s);
    if n < i {
        assert(s[n] == NEWLINE);
    } else if i < n {
        assert(s[i] != NEWLINE);
    }
}

/// Bytes without a newline in front of `b` move its first newline by their
/// number.
pub proof fn lemma_first_newline_prepend(a: Seq<u8>, b: Seq<u8>)
    requires
        !has_newline(a),
    ensures
        first_newline(a + b) == a.len() + first_newline(b),
{
    lemma_first_newline(a);
    lemma_first_newline(b);
    let s = a + b;
    let i = a.len() + first_newline(b);
    assert forall|j: int| 0 <= j < i implies s[j] != NEWLINE by {
        if j >= a.len() {
            assert(s[j] == b[j - a.len()]);
        }
    }
    if i < s.len() {
        assert(s[i] == b[first_newline(b)]);
    }
    lemma_first_newline_at(s, i);
}

/// Appending bytes behind a newline of `a` leaves its first newline in place.
pub proof fn lemma_first_newline_append(a: Seq<u8>, b: Seq<u8>)
    requires
        has_newline(a),
    ensures
        first_newline(a + b) == first_newline(a),
        head_line(a + b) == head_line(a),
        after_head(a + b) == after_head(a) + b,
{
    lemma_first_newline(a);
    let s = a + b;
    let n = first_newline(a);
    assert forall|j: int| 0 <= j < n implies s[j] != NEWLINE by {
        assert(s[j] == a[j]);
    }
    assert(s[n] == a[n]);
    lemma_first_newline_at(s, n);
    assert(head_line(s) =~= head_line(a));
    assert(after_head(s) =~= after_head(a) + b);
}

/// A stream is its first line followed by the rest.
pub proof fn lemma_split_head(s: Seq<u8>)
    ensures
        head_line(s) + after_head(s) == s,
        has_newline(s) ==> is_complete_line(head_line(s)),
        has_newline(s) ==> after_head(s).len() < s.len(),
        !has_newline(s) && s.len() > 0 ==> is_line(s),
{
    lemma_first_newline(s);
    assert(head_line(s) + after_head(s) =~= s);
}

/// Every complete line is one: not empty, ending with the only newline it holds.
pub proof fn lemma_complete_lines_shape(s: Seq<u8>, k: int)
    requires
        0 <= k < complete_lines(s).len(),
    ensures
        is_complete_line(complete_lines(s)[k]),
    decreases s.len(),
{
    lemma_first_newline(s);
    lemma_split_head(s);
    if k > 0 {
        lemma_complete_lines_shape(after_head(s), k - 1);
    }
}

/// The residue holds no newline.
pub proof fn lemma_residue_shape(s: Seq<u8>)
    ensures
        !has_newline(residue(s)),
        residue(s).len() <= s.len(),
    decreases s.len(),
{
    lemma_first_newline(s);
    if has_newline(s) {
        lemma_split_head(s);
        lemma_residue_shape(after_head(s));
    }
}

/// No byte is lost, repeated or moved: the complete lines laid end to end,
/// followed by the residue, are the stream.
pub proof fn lemma_lines_rebuild(s: Seq<u8>)
    ensures
        complete_lines(s).flatten() + residue(s) == s,
    decreases s.len(),
{
    lemma_first_newline(s);
    if has_newline(s) {
        lemma_split_head(s);
        let rest = after_head(s);
        lemma_lines_rebuild(rest);
        let head = seq![head_line(s)];
        vstd::seq_lib::lemma_flatten_concat(head, complete_lines(rest));
        assert(head.flatten() =~= head_line(s)) by {
            assert(head.drop_first() =~= Seq::<Seq<u8>>::empty());
            assert(head.first() == head_line(s));
            reveal_with_fuel(Seq::flatten, 2);
        }
        assert(complete_lines(s).flatten() + residue(s) =~= head_line(s) + (complete_lines(
            rest,
        ).flatten() + residue(rest)));
    } else {
        assert(complete_lines(s).flatten() =~= Seq::<u8>::empty());
        assert(Seq::<u8>::empty() + s =~= s);
    }
}

/// Cutting does not depend on how the bytes arrived: the complete lines of
/// `a` followed by `b` are those of `a`, then those of `a`'s residue followed
/// by `b`; and the residue is found the same way.
pub proof fn lemma_lines_incremental(a: Seq<u8>, b: Seq<u8>)
    ensures
        complete_lines(a + b) == complete_lines(a) + complete_lines(residue(a) + b),
        residue(a + b) == residue(residue(a) + b),
    decreases a.len(),
{
    lemma_first_newline(a);
    if has_newline(a) {
        lemma_split_head(a);
        lemma_first_newline_append(a, b);
        lemma_first_newline(a + b);
        lemma_lines_incremental(after_head(a), b);
        assert(complete_lines(a + b) =~= complete_lines(a) + complete_lines(residue(a) + b));
    } else {
        assert(complete_lines(a) =~= Seq::<Seq<u8>>::empty());
        assert(complete_lines(a) + complete_lines(a + b) =~= complete_lines(a + b));
    }
}

/// The lines of a closed stream, laid end to end, are the stream, and each
/// but the last ends with its newline.
pub proof fn lemma_lines_of(s: Seq<u8>)
    ensures
        lines_of(s).flatten() == s,
        forall|k: int| 0 <= k < lines_of(s).len() ==> is_line(#[trigger] lines_of(s)[k]),
        forall|k: int|
            0 <= k < lines_of(s).len() - 1 ==> is_complete_line(#[trigger] lines_of(s)[k]),
{
    lemma_lines_rebuild(s);
    lemma_residue_shape(s);
    let r = residue(s);
    let c = complete_lines(s);
    assert forall|k: int| 0 <= k < c.len() implies is_complete_line(#[trigger] c[k]) by {
        lemma_complete_lines_shape(s, k);
    }
    if r.len() > 0 {
        lemma_split_head(r);
        let last = seq![r];
        assert(c.push(r) =~= c + last);
        vstd::seq_lib::lemma_flatten_concat(c, last);
        assert(last.flatten() =~= r) by {
            assert(last.drop_first() =~= Seq::<Seq<u8>>::empty());
            reveal_with_fuel(Seq::flatten, 2);
        }
    } else {
        assert(c.flatten() + r =~= c.flatten());
    }
}

/// What is left unfinished after each of `chunks` arrived behind `carry` and
/// every complete line was handed out as soon as it was there.
pub open spec fn left_over(carry: Seq<u8>, chunks: Seq<Seq<u8>>) -> Seq<u8>
    decreases chunks.len(),
{
    if chunks.len() == 0 {
        residue(carry)
    } else {
        residue(left_over(carry, chunks.drop_last()) + chunks.last())
    }
}

/// The lines that are handed out while `chunks` arrive behind `carry`, each
/// chunk being cut as soon as it is there.
pub open spec fn handed_out(carry: Seq<u8>, chunks: Seq<Seq<u8>>) -> Seq<Seq<u8>>
    decreases chunks.len(),
{
    if chunks.len() == 0 {
        complete_lines(carry)
    } else {
        handed_out(carry, chunks.drop_last()) + complete_lines(
            left_over(carry, chunks.drop_last()) + chunks.last(),
        )
    }
}

/// A sequence of one piece, laid end to end, is the piece.
pub proof fn lemma_flatten_one(piece: Seq<u8>)
    ensures
        seq![piece].flatten() == piece,
{
    let one = seq![piece];
    assert(one.drop_first() =~= Seq::<Seq<u8>>::empty());
    reveal_with_fuel(Seq::flatten, 2);
    assert(one.flatten() =~= piece);
}

/// How the bytes were chunked on their way does not show in the lines: the
/// lines handed out while the chunks arrive are the complete lines of all
/// the bytes, and what is left is their residue.
pub proof fn law_chunks_do_not_show(carry: Seq<u8>, chunks: Seq<Seq<u8>>)
    ensures
        handed_out(carry, chunks) == complete_lines(carry + chunks.flatten()),
        left_over(carry, chunks) == residue(carry + chunks.flatten()),
    decreases chunks.len(),
{
    if chunks.len() == 0 {
        assert(chunks.flatten() =~= Seq::<u8>::empty());
        assert(carry + chunks.flatten() =~= carry);
    } else {
        let front = chunks.drop_last();
        let last = chunks.last();
        law_chunks_do_not_show(carry, front);
        assert(chunks =~= front + seq![last]);
        vstd::seq_lib::lemma_flatten_concat(front, seq![last]);
        lemma_flatten_one(last);
        let sofar = carry + front.flatten();
        assert(carry + chunks.flatten() =~= sofar + last);
        lemma_lines_incremental(sofar, last);
    }
}

/// Every byte that was written appears in exactly one line, in the order of
/// writing: the lines handed out while the chunks of a stream arrive,
/// followed by what is left when the stream closes, are the lines of all the
/// bytes; laid end to end they are the bytes; and each line ends with its
/// newline and holds no other, but for the last, which may lack it.
pub proof fn law_stream_lines(chunks: Seq<Seq<u8>>)
    ensures
        ({
            let during = handed_out(Seq::empty(), chunks);
            let rest = left_over(Seq::empty(), chunks);
            let all = if rest.len() == 0 {
                during
            } else {
                during.push(rest)
            };
            &&& all == lines_of(chunks.flatten())
            &&& all.flatten() == chunks.flatten()
            &&& forall|k: int| 0 <= k < all.len() ==> is_line(#[trigger] all[k])
            &&& forall|k: int| 0 <= k < all.len() - 1 ==> is_complete_line(#[trigger] all[k])
        }),
{
    law_chunks_do_not_show(Seq::empty(), chunks);
    assert(Seq::<u8>::empty() + chunks.flatten() =~= chunks.flatten());
    lemma_lines_of(chunks.flatten());
}

} // verus!
