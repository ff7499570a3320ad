//! Line framing over a growing byte buffer.

use vstd::prelude::*;
use vstd::utf8::{
    decode_first_scalar, decode_utf8, decode_utf8_first_scalar, decode_utf8_split,
    is_char_boundary_iff_not_is_continuation_byte, length_of_first_scalar, pop_first_scalar,
    take_first_scalar, valid_utf8, valid_utf8_split,
};

verus! {

/// The byte that ends a line.
pub const LINE_TERMINATOR: u8 = 10;

/// The text that `String::from_utf8_lossy` produces for `bytes`.
pub uninterp spec fn lossy_text(bytes: Seq<u8>) -> Seq<char>;

/// Whether `text` is `bytes` decoded permissively: it is what
/// `String::from_utf8_lossy` produces, which for well-formed UTF-8 is the
/// decoded string itself.
pub open spec fn decodes_to(bytes: Seq<u8>, text: Seq<char>) -> bool {
    &&& text == lossy_text(bytes)
    &&& valid_utf8(bytes) ==> text == decode_utf8(bytes)
}

/// Position of the first terminator in `bytes`, or `bytes.len()` when it
/// holds none.
pub open spec fn terminator_index(bytes: Seq<u8>) -> int
    decreases bytes.len(),
{
    if bytes.len() == 0 || bytes[0] == LINE_TERMINATOR {
        0
    } else {
        1 + terminator_index(bytes.drop_first())
    }
}

/// Whether `bytes` holds a complete line.
pub open spec fn has_line(bytes: Seq<u8>) -> bool {
    terminator_index(bytes) < bytes.len()
}

/// The first line of `bytes`, terminator included. Meaningful when
/// `has_line(bytes)`.
pub open spec fn first_line(bytes: Seq<u8>) -> Seq<u8> {
    bytes.subrange(0, terminator_index(bytes) + 1)
}

/// What follows the first line of `bytes`. Meaningful when `has_line(bytes)`.
pub open spec fn after_first_line(bytes: Seq<u8>) -> Seq<u8> {
    bytes.subrange(terminator_index(bytes) + 1, bytes.len() as int)
}

/// `terminator_index` is the least position of a terminator: no byte before it
/// is one, and it is within `bytes` exactly when a terminator occurs.
pub proof fn lemma_terminator_index(bytes: Seq<u8>)
    ensures
        0 <= terminator_index(bytes) <= bytes.len(),
        forall|j: int| 0 <= j < terminator_index(bytes) ==> bytes[j] != LINE_TERMINATOR,
        has_line(bytes) ==> bytes[terminator_index(bytes)] == LINE_TERMINATOR,
        has_line(bytes) <==> bytes.contains(LINE_TERMINATOR),
    decreases bytes.len(),
{
    if bytes.len() == 0 || bytes[0] == LINE_TERMINATOR {
    } else {
        let tail = bytes.drop_first();
        lemma_terminator_index(tail);
        let k = terminator_index(tail);
        assert forall|j: int| 0 <= j < k + 1 implies bytes[j] != LINE_TERMINATOR by {
            if j > 0 {
                assert(bytes[j] == tail[j - 1]);
            }
        }
        if has_line(bytes) {
            assert(bytes[k + 1] == tail[k]);
        }
        if bytes.contains(LINE_TERMINATOR) {
            let w = choose|w: int| 0 <= w < bytes.len() && bytes[w] == LINE_TERMINATOR;
            assert(tail[w - 1] == bytes[w]);
            assert(tail.contains(LINE_TERMINATOR));
        }
    }
}

/// A position that holds a terminator and has none before it is the
/// `terminator_index`.
pub proof fn lemma_terminator_index_is(bytes: Seq<u8>, i: int)
    requires
        0 <= i <= bytes.len(),
        forall|j: int| 0 <= j < i ==> bytes[j] != LINE_TERMINATOR,
        i < bytes.len() ==> bytes[i] == LINE_TERMINATOR,
    ensures
        terminator_index(bytes) == i,
{
    lemma_terminator_index(bytes);
    let k = terminator_index(bytes);
    if k < i {
        assert(bytes[k] != LINE_TERMINATOR);
    } else if i < k {
        assert(bytes[i] != LINE_TERMINATOR);
    }
}

/// Every complete line of `bytes`, in order, each with its terminator.
pub open spec fn lines_of(bytes: Seq<u8>) -> Seq<Seq<u8>>
    decreases bytes.len(),
{
    if has_line(bytes) {
        proof {
            lemma_terminator_index(bytes);
        }
        seq![first_line(bytes)] + lines_of(after_first_line(bytes))
    } else {
        Seq::empty()
    }
}

/// What is left of `bytes` once every complete line is taken away.
pub open spec fn remainder_of(bytes: Seq<u8>) -> Seq<u8>
    decreases bytes.len(),
{
    if has_line(bytes) {
        proof {
            lemma_terminator_index(bytes);
        }
        remainder_of(after_first_line(bytes))
    } else {
        bytes
    }
}

/// Whether `line` is one terminated line: it ends in the terminator and holds
/// no other.
pub open spec fn is_line(line: Seq<u8>) -> bool {
    &&& line.len() >= 1
    &&& line.last() == LINE_TERMINATOR
    &&& forall|j: int| 0 <= j < line.len() - 1 ==> line[j] != LINE_TERMINATOR
}

/// A buffer with a line is that line followed by the rest, and the line holds
/// exactly one terminator, at its end.
pub proof fn lemma_first_line(bytes: Seq<u8>)
    requires
        has_line(bytes),
    ensures
        is_line(first_line(bytes)),
        first_line(bytes) + after_first_line(bytes) == bytes,
        after_first_line(bytes).len() < bytes.len(),
        first_line(bytes).to_multiset().count(LINE_TERMINATOR) == 1,
{
    lemma_terminator_index(bytes);
    let k = terminator_index(bytes);
    let line = first_line(bytes);
    assert(line + after_first_line(bytes) =~= bytes);
    let head = line.drop_last();
    assert(line =~= head.push(LINE_TERMINATOR));
    head.to_multiset_ensures();
    assert(!head.contains(LINE_TERMINATOR));
    vstd::seq_lib::to_multiset_build(head, LINE_TERMINATOR);
}

/// Draining a buffer line by line yields as many lines as it holds
/// terminators, each ending in its only terminator; what is left holds no
/// terminator; and the lines followed by what is left are the buffer again.
pub proof fn lemma_drain_round_trip(bytes: Seq<u8>)
    ensures
        lines_of(bytes).len() == bytes.to_multiset().count(LINE_TERMINATOR),
        forall|i: int| 0 <= i < lines_of(bytes).len() ==> is_line(#[trigger] lines_of(bytes)[i]),
        !has_line(remainder_of(bytes)),
        lines_of(bytes).flatten() + remainder_of(bytes) == bytes,
    decreases bytes.len(),
{
    lemma_terminator_index(bytes);
    if has_line(bytes) {
        let line = first_line(bytes);
        let rest = after_first_line(bytes);
        lemma_first_line(bytes);
        lemma_drain_round_trip(rest);
        vstd::seq_lib::lemma_multiset_commutative(line, rest);
        let all = lines_of(bytes);
        assert(all.first() == line);
        assert(all.drop_first() =~= lines_of(rest));
        assert(all.flatten() == line + lines_of(rest).flatten());
        assert(all.flatten() + remainder_of(bytes) =~= line + (lines_of(rest).flatten()
            + remainder_of(rest)));
        assert forall|i: int| 0 <= i < all.len() implies is_line(#[trigger] all[i]) by {
            if i > 0 {
                assert(all[i] == lines_of(rest)[i - 1]);
            }
        }
    } else {
        bytes.to_multiset_ensures();
        assert(lines_of(bytes).flatten() =~= Seq::<u8>::empty());
        assert(Seq::<u8>::empty() + bytes =~= bytes);
    }
}

/// Bytes that hold no terminator, followed by bytes that do, begin with one
/// line: the former joined to the first line of the latter. Nothing is lost
/// and nothing is repeated.
pub proof fn lemma_split_line_reassembled(head: Seq<u8>, tail: Seq<u8>)
    requires
        !has_line(head),
        has_line(tail),
    ensures
        has_line(head + tail),
        first_line(head + tail) == head + first_line(tail),
        after_first_line(head + tail) == after_first_line(tail),
        lines_of(head + tail) == seq![head + first_line(tail)] + lines_of(after_first_line(tail)),
        remainder_of(head + tail) == remainder_of(tail),
{
    lemma_terminator_index(head);
    lemma_terminator_index(tail);
    let whole = head + tail;
    let k = head.len() + terminator_index(tail);
    assert forall|j: int| 0 <= j < k implies whole[j] != LINE_TERMINATOR by {
        if j >= head.len() {
            assert(whole[j] == tail[j - head.len()]);
        }
    }
    assert(whole[k] == tail[k - head.len()]);
    lemma_terminator_index_is(whole, k);
    assert(first_line(whole) =~= head + first_line(tail));
    assert(after_first_line(whole) =~= after_first_line(tail));
}

/// Framing bytes that arrive in two parts, keeping what is left of the first
/// part in front of the second, gives the lines and the rest that framing the
/// whole at once gives.
pub proof fn lemma_incremental_framing(first: Seq<u8>, second: Seq<u8>)
    ensures
        lines_of(first + second) == lines_of(first) + lines_of(remainder_of(first) + second),
        remainder_of(first + second) == remainder_of(remainder_of(first) + second),
    decreases first.len(),
{
    lemma_terminator_index(first);
    if has_line(first) {
        let k = terminator_index(first);
        let whole = first + second;
        assert forall|j: int| 0 <= j < k implies whole[j] != LINE_TERMINATOR by {
            assert(whole[j] == first[j]);
        }
        assert(whole[k] == first[k]);
        lemma_terminator_index_is(whole, k);
        assert(first_line(whole) =~= first_line(first));
        assert(after_first_line(whole) =~= after_first_line(first) + second);
        lemma_incremental_framing(after_first_line(first), second);
        assert(lines_of(whole) =~= lines_of(first) + lines_of(remainder_of(first) + second));
    } else {
        assert(lines_of(first) + lines_of(first + second) =~= lines_of(first + second));
    }
}

/// The lines that leave a buffer holding `buffered` as the chunks `reads`
/// arrive one after another, each framed as soon as it has arrived.
pub open spec fn lines_over_reads(buffered: Seq<u8>, reads: Seq<Seq<u8>>) -> Seq<Seq<u8>>
    decreases reads.len(),
{
    if reads.len() == 0 {
        Seq::empty()
    } else {
        lines_of(buffered + reads.first()) + lines_over_reads(
            remainder_of(buffered + reads.first()),
            reads.drop_first(),
        )
    }
}

/// What the buffer holds after the chunks `reads` have arrived and been
/// framed one after another.
pub open spec fn buffer_after_reads(buffered: Seq<u8>, reads: Seq<Seq<u8>>) -> Seq<u8>
    decreases reads.len(),
{
    if reads.len() == 0 {
        buffered
    } else {
        buffer_after_reads(remainder_of(buffered + reads.first()), reads.drop_first())
    }
}

/// How a stream is cut into reads does not matter: with no line waiting in
/// the buffer, the lines framed read by read, and what stays buffered at the
/// end, are those of the whole stream framed at once.
pub proof fn lemma_framing_ignores_chunking(buffered: Seq<u8>, reads: Seq<Seq<u8>>)
    requires
        !has_line(buffered),
    ensures
        lines_over_reads(buffered, reads) == lines_of(buffered + reads.flatten()),
        buffer_after_reads(buffered, reads) == remainder_of(buffered + reads.flatten()),
    decreases reads.len(),
{
    if reads.len() == 0 {
        assert(reads.flatten() =~= Seq::<u8>::empty());
        assert(buffered + reads.flatten() =~= buffered);
    } else {
        let head = reads.first();
        let rest = reads.drop_first();
        let next = remainder_of(buffered + head);
        assert(reads.flatten() == head + rest.flatten());
        assert(buffered + reads.flatten() =~= (buffered + head) + rest.flatten());
        lemma_drain_round_trip(buffered + head);
        lemma_framing_ignores_chunking(next, rest);
        lemma_incremental_framing(buffered + head, rest.flatten());
    }
}

/// ASCII bytes are well-formed UTF-8 and decode to the characters with the
/// same codes, so their permissive decoding is those characters.
pub proof fn lemma_ascii_text(bytes: Seq<u8>)
    requires
        forall|i: int| 0 <= i < bytes.len() ==> bytes[i] < 128,
    ensures
        valid_utf8(bytes),
        decode_utf8(bytes) == Seq::new(bytes.len(), |i: int| bytes[i] as char),
    decreases bytes.len(),
{
    if bytes.len() > 0 {
        let first = bytes[0];
        assert(first < 128 ==> (first & 0x7f) == first) by (bit_vector);
        let rest = pop_first_scalar(bytes);
        assert(rest =~= bytes.subrange(1, bytes.len() as int));
        lemma_ascii_text(rest);
        assert(decode_utf8(bytes) =~= Seq::new(bytes.len(), |i: int| bytes[i] as char));
    } else {
        assert(decode_utf8(bytes) =~= Seq::new(bytes.len(), |i: int| bytes[i] as char));
    }
}

/// Whether `text` is one terminated line of text: it ends in a line feed and
/// holds no other.
pub open spec fn is_text_line(text: Seq<char>) -> bool {
    &&& text.len() >= 1
    &&& text.last() == '\n'
    &&& forall|j: int| 0 <= j < text.len() - 1 ==> text[j] != '\n'
}

/// Well-formed UTF-8 without a terminator byte decodes to text without a
/// line feed.
proof fn lemma_decoded_without_terminator(bytes: Seq<u8>)
    requires
        valid_utf8(bytes),
        !bytes.contains(LINE_TERMINATOR),
    ensures
        !decode_utf8(bytes).contains('\n'),
    decreases bytes.len(),
{
    if bytes.len() > 0 {
        let rest = pop_first_scalar(bytes);
        let width = length_of_first_scalar(bytes);
        assert(!rest.contains(LINE_TERMINATOR)) by {
            if rest.contains(LINE_TERMINATOR) {
                let w = choose|w: int| 0 <= w < rest.len() && rest[w] == LINE_TERMINATOR;
                assert(bytes[w + width] == LINE_TERMINATOR);
            }
        }
        lemma_decoded_without_terminator(rest);
        let c = decode_first_scalar(bytes) as char;
        assert(c != '\n') by {
            if c == '\n' {
                decode_utf8_first_scalar(bytes);
                assert((10u32 & 0x7f) as u8 == 10u8) by (bit_vector);
                assert(take_first_scalar(bytes)[0] == bytes[0]);
                assert(bytes.contains(bytes[0]));
            }
        }
        let text = decode_utf8(bytes);
        assert(text == seq![c] + decode_utf8(rest));
        if text.contains('\n') {
            let w = choose|w: int| 0 <= w < text.len() && text[w] == '\n';
            if w > 0 {
                assert(decode_utf8(rest)[w - 1] == '\n');
            }
        }
    }
}

/// A terminated line of well-formed UTF-8 decodes to a terminated line of
/// text: the decoded string ends in a line feed and holds no other.
pub proof fn lemma_line_text(line: Seq<u8>)
    requires
        is_line(line),
        valid_utf8(line),
    ensures
        is_text_line(decode_utf8(line)),
{
    let k = line.len() - 1;
    let head = line.subrange(0, k);
    let end = line.subrange(k, line.len() as int);
    is_char_boundary_iff_not_is_continuation_byte(line, k);
    valid_utf8_split(line, k);
    decode_utf8_split(line, k);
    assert(!head.contains(LINE_TERMINATOR));
    lemma_decoded_without_terminator(head);
    assert(end =~= seq![LINE_TERMINATOR]);
    assert(pop_first_scalar(end) =~= Seq::<u8>::empty());
    assert(10u8 & 0x7f == 10u8) by (bit_vector);
    assert(decode_utf8(end) =~= seq!['\n']) by {
        reveal_with_fuel(decode_utf8, 2);
    }
    let text = decode_utf8(line);
    assert(text =~= decode_utf8(head).push('\n'));
    assert forall|j: int| 0 <= j < text.len() - 1 implies text[j] != '\n' by {
        assert(decode_utf8(head)[j] == text[j]);
    }
}

/// Decodes bytes permissively with `String::from_utf8_lossy`: the result is
/// that function's text for `bytes`, which for well-formed UTF-8 is the decoded
/// string itself.
#[verifier::external_body]
pub(crate) fn decode_lossy(bytes: &[u8]) -> (text: String)
    ensures
        text@ == lossy_text(bytes@),
        valid_utf8(bytes@) ==> text@ == decode_utf8(bytes@),
{
    String::from_utf8_lossy(bytes).into_owned()
}

/// Removes the first line from `buffer` and returns it, terminator included,
/// decoded permissively: bytes that are no UTF-8 are replaced, never
/// rejected, and a line of well-formed UTF-8 is returned as it is, so that
/// the text ends in its only line feed. What follows the line stays in the
/// buffer. Without a terminator no line is returned and the buffer is left as
/// it is.
pub fn read_line_from_buffer(buffer: &mut Vec<u8>) -> (res: Option<String>)
    ensures
        res is Some <==> old(buffer)@.contains(LINE_TERMINATOR),
        res is Some <==> has_line(old(buffer)@),
        res is Some ==> {
            &&& res->0@ == lossy_text(first_line(old(buffer)@))
            &&& valid_utf8(first_line(old(buffer)@)) ==> res->0@ == decode_utf8(
                first_line(old(buffer)@),
            )
            &&& valid_utf8(first_line(old(buffer)@)) ==> is_text_line(res->0@)
            &&& final(buffer)@ == after_first_line(old(buffer)@)
        },
        res is None ==> final(buffer)@ == old(buffer)@,
{
    let n = buffer.len();
    let mut i: usize = 0;
    while i < n && buffer[i] != LINE_TERMINATOR
        invariant
            n == buffer@.len(),
            i <= n,
            forall|j: int| 0 <= j < i ==> buffer@[j] != LINE_TERMINATOR,
        decreases n - i,
    {
        i += 1;
    }
    proof {
        lemma_terminator_index_is(buffer@, i as int);
        lemma_terminator_index(buffer@);
    }
    if i == n {
        return None;
    }
    proof {
        lemma_first_line(buffer@);
        if valid_utf8(first_line(buffer@)) {
            lemma_line_text(first_line(buffer@));
        }
    }
    let rest = buffer.split_off(i + 1);
    let line = decode_lossy(buffer.as_slice());
    *buffer = rest;
    Some(line)
}

/// Takes every complete line out of `buffer`, in order, by taking the first
/// line again and again. What follows the last terminator stays.
pub fn drain_lines(buffer: &mut Vec<u8>) -> (lines: Vec<String>)
    ensures
        lines@.len() == lines_of(old(buffer)@).len(),
        forall|i: int|
            0 <= i < lines@.len() ==> decodes_to(
                lines_of(old(buffer)@)[i],
                (#[trigger] lines@[i])@,
            ),
        forall|i: int|
            0 <= i < lines@.len() && valid_utf8(lines_of(old(buffer)@)[i]) ==> is_text_line(
                (#[trigger] lines@[i])@,
            ),
        final(buffer)@ == remainder_of(old(buffer)@),
        !has_line(final(buffer)@),
{
    let mut lines: Vec<String> = Vec::new();
    let ghost mut taken: Seq<Seq<u8>> = Seq::empty();
    loop
        invariant
            lines_of(old(buffer)@) == taken + lines_of(buffer@),
            remainder_of(old(buffer)@) == remainder_of(buffer@),
            lines@.len() == taken.len(),
            forall|i: int| 0 <= i < taken.len() ==> decodes_to(taken[i], (#[trigger] lines@[i])@),
        ensures
            !has_line(buffer@),
        decreases buffer@.len(),
    {
        let ghost before = buffer@;
        match read_line_from_buffer(buffer) {
            None => {
                break ;
            },
            Some(line) => {
                let ghost earlier = lines@;
                lines.push(line);
                proof {
                    lemma_first_line(before);
                    assert forall|i: int| 0 <= i < taken.len() implies decodes_to(
                        taken[i],
                        (#[trigger] lines@[i])@,
                    ) by {
                        assert(lines@[i] == earlier[i]);
                    }
                    assert(taken + lines_of(before) =~= taken.push(first_line(before)) + lines_of(
                        after_first_line(before),
                    ));
                    taken = taken.push(first_line(before));
                }
            },
        }
    }
    assert(taken + lines_of(buffer@) =~= taken);
    proof {
        lemma_drain_round_trip(old(buffer)@);
        assert forall|i: int|
            0 <= i < lines@.len() && valid_utf8(lines_of(old(buffer)@)[i]) implies is_text_line(
            (#[trigger] lines@[i])@,
        ) by {
            lemma_line_text(lines_of(old(buffer)@)[i]);
        }
    }
    lines
}

} // verus!
