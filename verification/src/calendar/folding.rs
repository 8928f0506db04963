//! Content-line folding, stated over the UTF-8 bytes of a line.
//!
//! A logical line longer than 75 octets is cut into physical lines. The first
//! may hold 75 octets of content, each later one 74 octets after its leading
//! space. A cut never lands on a UTF-8 continuation byte.
use vstd::prelude::*;
use vstd::utf8::*;

verus! {

/// Octets a physical line may hold, its line break not counted.
pub const MAX_LINE: usize = 75;

/// The right-most index at or below `hi` whose byte is no UTF-8 continuation
/// byte, that is none of `0x80..=0xBF`; or `-1` when every byte of
/// `bytes[0..=hi]` is one.
pub open spec fn last_start(bytes: Seq<u8>, hi: int) -> int
    decreases hi + 1,
{
    if hi < 0 {
        -1
    } else if !is_continuation_byte(bytes[hi]) {
        hi
    } else {
        last_start(bytes, hi - 1)
    }
}

/// How many leading bytes of `bytes` form the next segment under the byte
/// budget `limit`.
///
/// Everything, if it fits. Otherwise the cut is the right-most index in
/// `1..=limit` that starts a character; where there is none the whole
/// remainder stays in one piece.
pub open spec fn boundary(bytes: Seq<u8>, limit: int) -> int {
    if bytes.len() <= limit {
        bytes.len() as int
    } else if last_start(bytes, limit) > 0 {
        last_start(bytes, limit)
    } else {
        bytes.len() as int
    }
}

/// `last_start` is the one index that starts a character and has only
/// continuation bytes between itself and `hi`.
pub proof fn lemma_last_start(bytes: Seq<u8>, hi: int)
    requires
        -1 <= hi < bytes.len(),
    ensures
        -1 <= last_start(bytes, hi) <= hi,
        last_start(bytes, hi) >= 0 ==> !is_continuation_byte(bytes[last_start(bytes, hi)]),
        forall|j: int| last_start(bytes, hi) < j <= hi ==> is_continuation_byte(#[trigger] bytes[j]),
    decreases hi + 1,
{
    if hi >= 0 && is_continuation_byte(bytes[hi]) {
        lemma_last_start(bytes, hi - 1);
    }
}

/// A segment is never empty unless nothing is left, and never longer than
/// what is left.
pub proof fn lemma_boundary_range(bytes: Seq<u8>, limit: int)
    requires
        limit >= 0,
    ensures
        0 <= boundary(bytes, limit) <= bytes.len(),
        bytes.len() > 0 ==> boundary(bytes, limit) > 0,
{
    if bytes.len() > limit {
        lemma_last_start(bytes, limit);
    }
}

/// The length of the next segment of `bytes` under the byte budget `limit`.
pub fn segment_len(bytes: &[u8], limit: usize) -> (cut: usize)
    ensures
        cut == boundary(bytes@, limit as int),
{
    let num_bytes = bytes.len();
    if limit >= num_bytes {
        return num_bytes;
    }
    let mut i: usize = limit;
    while i > 0 && 128 <= bytes[i] && bytes[i] < 192
        invariant
            i <= limit < bytes@.len(),
            last_start(bytes@, limit as int) == last_start(bytes@, i as int),
        decreases i,
    {
        i = i - 1;
    }
    if i == 0 {
        proof {
            reveal_with_fuel(last_start, 2);
        }
        num_bytes
    } else {
        i
    }
}

/// The line break that ends a physical line.
pub open spec fn crlf() -> Seq<u8> {
    seq![13u8, 10u8]
}

/// The line break and single space that open a continuation line.
pub open spec fn crlf_space() -> Seq<u8> {
    seq![13u8, 10u8, 32u8]
}

/// What follows the first segment: each further segment behind a line break
/// and a space, then the closing line break.
pub open spec fn folded_rest(bytes: Seq<u8>) -> Seq<u8>
    decreases bytes.len(),
    via folded_rest_decreases
{
    if bytes.len() == 0 {
        crlf()
    } else {
        let cut = boundary(bytes, MAX_LINE - 1);
        crlf_space() + bytes.take(cut) + folded_rest(bytes.skip(cut))
    }
}

#[via_fn]
proof fn folded_rest_decreases(bytes: Seq<u8>) {
    lemma_boundary_range(bytes, MAX_LINE - 1);
}

/// The physical lines of the logical line `bytes`, line breaks included.
/// An empty logical line gives no output at all.
pub open spec fn folded(bytes: Seq<u8>) -> Seq<u8> {
    if bytes.len() == 0 {
        Seq::empty()
    } else {
        let cut = boundary(bytes, MAX_LINE as int);
        bytes.take(cut) + folded_rest(bytes.skip(cut))
    }
}

/// In well-formed UTF-8 a cut never falls inside the encoding of a character.
pub proof fn lemma_boundary_splits_no_character(bytes: Seq<u8>, limit: int)
    requires
        valid_utf8(bytes),
        limit >= 0,
    ensures
        is_char_boundary(bytes, boundary(bytes, limit)),
{
    let cut = boundary(bytes, limit);
    lemma_boundary_range(bytes, limit);
    if cut == bytes.len() {
        is_char_boundary_start_end_of_seq(bytes);
    } else {
        lemma_last_start(bytes, limit);
        is_char_boundary_iff_not_is_continuation_byte(bytes, cut);
    }
}

/// An empty logical line is not written at all.
pub proof fn lemma_empty_line_vanishes()
    ensures
        folded(Seq::<u8>::empty()) == Seq::<u8>::empty(),
{
}

/// A logical line of at most 75 octets is one physical line: its own bytes,
/// unchanged, and the line break.
pub proof fn lemma_short_line_stays_whole(bytes: Seq<u8>)
    requires
        0 < bytes.len() <= MAX_LINE,
    ensures
        folded(bytes) == bytes + crlf(),
{
    assert(bytes.take(bytes.len() as int) =~= bytes);
    assert(bytes.skip(bytes.len() as int) =~= Seq::<u8>::empty());
}

/// The offset in `bytes` at which physical line `k` ends, counted from line
/// 0. Behind the last line it is the length of `bytes`.
pub open spec fn cut(bytes: Seq<u8>, k: nat) -> int
    decreases k,
{
    if k == 0 {
        boundary(bytes, MAX_LINE as int)
    } else {
        let before = cut(bytes, (k - 1) as nat);
        before + boundary(bytes.skip(before), MAX_LINE - 1)
    }
}

/// The physical lines 0 to `k` of `bytes` as they are written, without the
/// line break that ends line `k`.
pub open spec fn lines_through(bytes: Seq<u8>, k: nat) -> Seq<u8>
    decreases k,
{
    if k == 0 {
        bytes.take(cut(bytes, 0))
    } else {
        lines_through(bytes, (k - 1) as nat) + crlf_space() + bytes.subrange(
            cut(bytes, (k - 1) as nat),
            cut(bytes, k),
        )
    }
}

/// The offsets at which lines end lie in the line and never go back.
pub proof fn lemma_cut_range(bytes: Seq<u8>, k: nat)
    ensures
        0 <= cut(bytes, k) <= bytes.len(),
        k > 0 ==> cut(bytes, (k - 1) as nat) <= cut(bytes, k),
        k > 0 && cut(bytes, (k - 1) as nat) < bytes.len() ==> cut(bytes, (k - 1) as nat) < cut(
            bytes,
            k,
        ),
        bytes.len() > 0 ==> cut(bytes, k) > 0,
    decreases k,
{
    if k == 0 {
        lemma_boundary_range(bytes, MAX_LINE as int);
    } else {
        lemma_cut_range(bytes, (k - 1) as nat);
        lemma_boundary_range(bytes.skip(cut(bytes, (k - 1) as nat)), MAX_LINE - 1);
    }
}

/// The folded line is made of its physical lines: for every line `k` that
/// the folding reaches, the lines 0 to `k` stand at its front, cut at the
/// offsets that `cut` gives, and what follows is the folding of the rest.
pub proof fn lemma_folded_by_lines(bytes: Seq<u8>, k: nat)
    requires
        bytes.len() > 0,
        k > 0 ==> cut(bytes, (k - 1) as nat) < bytes.len(),
    ensures
        folded(bytes) == lines_through(bytes, k) + folded_rest(bytes.skip(cut(bytes, k))),
    decreases k,
{
    if k > 0 {
        let before = cut(bytes, (k - 1) as nat);
        lemma_cut_range(bytes, (k - 1) as nat);
        if k > 1 {
            lemma_cut_range(bytes, (k - 2) as nat);
        }
        lemma_folded_by_lines(bytes, (k - 1) as nat);
        let rest = bytes.skip(before);
        let step = boundary(rest, MAX_LINE - 1);
        lemma_boundary_range(rest, MAX_LINE - 1);
        assert(rest.take(step) =~= bytes.subrange(before, before + step));
        assert(rest.skip(step) =~= bytes.skip(before + step));
        assert(folded(bytes) =~= lines_through(bytes, k) + folded_rest(bytes.skip(cut(bytes, k))));
    }
}

/// Where no byte is a continuation byte, as in a line of single-byte
/// characters, a segment takes all that its budget allows.
pub proof fn lemma_single_byte_boundary(bytes: Seq<u8>, limit: int)
    requires
        limit >= 1,
        forall|i: int| 0 <= i < bytes.len() ==> !is_continuation_byte(#[trigger] bytes[i]),
    ensures
        boundary(bytes, limit) == if bytes.len() <= limit {
            bytes.len() as int
        } else {
            limit
        },
{
}

/// A line of single-byte characters is cut at exactly 75 octets, and then
/// every 74 octets.
pub proof fn lemma_single_byte_cuts(bytes: Seq<u8>, k: nat)
    requires
        forall|i: int| 0 <= i < bytes.len() ==> !is_continuation_byte(#[trigger] bytes[i]),
    ensures
        cut(bytes, k) == if bytes.len() <= MAX_LINE + (MAX_LINE - 1) * k {
            bytes.len() as int
        } else {
            MAX_LINE + (MAX_LINE - 1) * k
        },
    decreases k,
{
    if k == 0 {
        lemma_single_byte_boundary(bytes, MAX_LINE as int);
    } else {
        lemma_single_byte_cuts(bytes, (k - 1) as nat);
        let before = cut(bytes, (k - 1) as nat);
        lemma_cut_range(bytes, (k - 1) as nat);
        let rest = bytes.skip(before);
        assert forall|i: int| 0 <= i < rest.len() implies !is_continuation_byte(
            #[trigger] rest[i],
        ) by {
            assert(rest[i] == bytes[before + i]);
        }
        lemma_single_byte_boundary(rest, MAX_LINE - 1);
    }
}

/// A character boundary of what follows a character boundary is a character
/// boundary of the whole.
proof fn lemma_boundary_of_rest(bytes: Seq<u8>, at: int, step: int)
    requires
        valid_utf8(bytes),
        is_char_boundary(bytes, at),
        0 <= at <= bytes.len(),
        valid_utf8(bytes.skip(at)),
        is_char_boundary(bytes.skip(at), step),
        0 <= step <= bytes.len() - at,
    ensures
        is_char_boundary(bytes, at + step),
{
    let rest = bytes.skip(at);
    if at + step == bytes.len() {
        is_char_boundary_start_end_of_seq(bytes);
    } else {
        is_char_boundary_iff_not_is_continuation_byte(rest, step);
        assert(rest[step] == bytes[at + step]);
        is_char_boundary_iff_not_is_continuation_byte(bytes, at + step);
    }
}

/// In well-formed UTF-8 no physical line ends inside the encoding of a
/// character.
pub proof fn lemma_cut_splits_no_character(bytes: Seq<u8>, k: nat)
    requires
        valid_utf8(bytes),
    ensures
        is_char_boundary(bytes, cut(bytes, k)),
        valid_utf8(bytes.skip(cut(bytes, k))),
    decreases k,
{
    if k == 0 {
        lemma_boundary_splits_no_character(bytes, MAX_LINE as int);
    } else {
        lemma_cut_splits_no_character(bytes, (k - 1) as nat);
        let before = cut(bytes, (k - 1) as nat);
        lemma_cut_range(bytes, (k - 1) as nat);
        let rest = bytes.skip(before);
        lemma_boundary_splits_no_character(rest, MAX_LINE - 1);
        lemma_boundary_range(rest, MAX_LINE - 1);
        lemma_boundary_of_rest(bytes, before, boundary(rest, MAX_LINE - 1));
    }
    valid_utf8_split(bytes, cut(bytes, k));
    lemma_cut_range(bytes, k);
    assert(bytes.skip(cut(bytes, k)) =~= bytes.subrange(cut(bytes, k), bytes.len() as int));
}

/// At offset `at` of `text` stand a line break and a space.
pub open spec fn mark_at(text: Seq<u8>, at: int) -> bool {
    &&& 0 <= at
    &&& at + 2 < text.len()
    &&& text[at] == 13
    &&& text[at + 1] == 10
    &&& text[at + 2] == 32
}

/// `text` without any line break that a space follows, and without that
/// space: what a reader of folded text takes the text to be.
pub open spec fn unfolded(text: Seq<u8>) -> Seq<u8>
    decreases text.len(),
{
    if text.len() == 0 {
        Seq::empty()
    } else if mark_at(text, 0) {
        unfolded(text.skip(3))
    } else {
        seq![text[0]] + unfolded(text.skip(1))
    }
}

/// Nowhere in `bytes` stand a line break and a space.
pub open spec fn has_no_mark(bytes: Seq<u8>) -> bool {
    forall|at: int| !#[trigger] mark_at(bytes, at)
}

/// No byte of `bytes` is a line feed.
pub open spec fn has_no_line_feed(bytes: Seq<u8>) -> bool {
    forall|i: int| 0 <= i < bytes.len() ==> #[trigger] bytes[i] != 10
}

/// A line without line feeds holds no line break.
pub proof fn lemma_no_line_feed_no_mark(bytes: Seq<u8>)
    requires
        has_no_line_feed(bytes),
    ensures
        has_no_mark(bytes),
{
    assert forall|at: int| !#[trigger] mark_at(bytes, at) by {
        if 0 <= at && at + 2 < bytes.len() {
            assert(bytes[at + 1] != 10);
        }
    }
}

/// A part of a line without marks is without marks.
proof fn lemma_part_has_no_mark(bytes: Seq<u8>, from: int, to: int)
    requires
        has_no_mark(bytes),
        0 <= from <= to <= bytes.len(),
    ensures
        has_no_mark(bytes.subrange(from, to)),
{
    let part = bytes.subrange(from, to);
    assert forall|at: int| !#[trigger] mark_at(part, at) by {
        if mark_at(part, at) {
            assert(mark_at(bytes, from + at));
        }
    }
}

/// Unfolding leaves a stretch without marks as it is, where what follows it
/// starts with a carriage return.
proof fn lemma_unfolded_keeps(head: Seq<u8>, tail: Seq<u8>)
    requires
        has_no_mark(head),
        tail.len() > 0,
        tail[0] == 13,
    ensures
        unfolded(head + tail) == head + unfolded(tail),
    decreases head.len(),
{
    if head.len() == 0 {
        assert(head + tail =~= tail);
        assert(head + unfolded(tail) =~= unfolded(tail));
    } else {
        let text = head + tail;
        assert(text[0] == head[0]);
        if head.len() == 1 {
            assert(text[1] == tail[0]);
        } else if head.len() == 2 {
            assert(text[2] == tail[0]);
        } else {
            assert(text[1] == head[1] && text[2] == head[2]);
            assert(!mark_at(head, 0));
        }
        assert(!mark_at(text, 0));
        assert(text.skip(1) =~= head.skip(1) + tail);
        lemma_part_has_no_mark(head, 1, head.len() as int);
        assert(head.skip(1) =~= head.subrange(1, head.len() as int));
        lemma_unfolded_keeps(head.skip(1), tail);
        assert(head + unfolded(tail) =~= seq![head[0]] + (head.skip(1) + unfolded(tail)));
    }
}

/// Unfolding the continuation lines of a line without marks gives the line
/// back, with the closing line break behind it.
proof fn lemma_unfolded_rest(bytes: Seq<u8>)
    requires
        has_no_mark(bytes),
    ensures
        unfolded(folded_rest(bytes)) == bytes + crlf(),
        folded_rest(bytes).len() > 0,
        folded_rest(bytes)[0] == 13,
    decreases bytes.len(),
{
    if bytes.len() == 0 {
        reveal_with_fuel(unfolded, 3);
        assert(crlf().skip(1) =~= seq![10u8]);
        assert(seq![10u8].skip(1) =~= Seq::<u8>::empty());
        assert(unfolded(crlf()) =~= crlf());
        assert(bytes + crlf() =~= crlf());
    } else {
        let step = boundary(bytes, MAX_LINE - 1);
        lemma_boundary_range(bytes, MAX_LINE - 1);
        let head = bytes.take(step);
        let tail = bytes.skip(step);
        lemma_part_has_no_mark(bytes, 0, step);
        lemma_part_has_no_mark(bytes, step, bytes.len() as int);
        assert(head =~= bytes.subrange(0, step));
        assert(tail =~= bytes.subrange(step, bytes.len() as int));
        lemma_unfolded_rest(tail);
        let text = folded_rest(bytes);
        assert(text =~= crlf_space() + (head + folded_rest(tail)));
        assert(mark_at(text, 0));
        assert(text.skip(3) =~= head + folded_rest(tail));
        lemma_unfolded_keeps(head, folded_rest(tail));
        assert(head + (tail + crlf()) =~= bytes + crlf());
    }
}

/// Folding loses nothing: a reader who takes every line break with a space
/// behind it out of the folded line has the logical line again, with the
/// line break that closes it. This holds of every line in which no line
/// break with a space behind it stands already; an escaped line is one, as
/// it holds no line feed.
pub proof fn lemma_unfolded_folded(bytes: Seq<u8>)
    requires
        has_no_mark(bytes),
    ensures
        unfolded(folded(bytes)) == if bytes.len() == 0 {
            bytes
        } else {
            bytes + crlf()
        },
{
    if bytes.len() > 0 {
        let step = boundary(bytes, MAX_LINE as int);
        lemma_boundary_range(bytes, MAX_LINE as int);
        let head = bytes.take(step);
        let tail = bytes.skip(step);
        lemma_part_has_no_mark(bytes, 0, step);
        lemma_part_has_no_mark(bytes, step, bytes.len() as int);
        assert(head =~= bytes.subrange(0, step));
        assert(tail =~= bytes.subrange(step, bytes.len() as int));
        lemma_unfolded_rest(tail);
        lemma_unfolded_keeps(head, folded_rest(tail));
        assert(head + (tail + crlf()) =~= bytes + crlf());
    }
}

/// The two separators are well-formed UTF-8.
proof fn lemma_separators_valid()
    ensures
        valid_utf8(crlf()),
        valid_utf8(crlf_space()),
{
    let a = seq!['\r', '\n'];
    let b = seq!['\r', '\n', ' '];
    is_ascii_chars_encode_utf8(a);
    is_ascii_chars_encode_utf8(b);
    assert(encode_utf8(a) =~= crlf());
    assert(encode_utf8(b) =~= crlf_space());
    encode_utf8_valid_utf8(a);
    encode_utf8_valid_utf8(b);
}

/// The continuation lines of well-formed UTF-8 are well-formed UTF-8.
proof fn lemma_folded_rest_valid(bytes: Seq<u8>)
    requires
        valid_utf8(bytes),
    ensures
        valid_utf8(folded_rest(bytes)),
    decreases bytes.len(),
{
    lemma_separators_valid();
    if bytes.len() > 0 {
        let step = boundary(bytes, MAX_LINE - 1);
        lemma_boundary_range(bytes, MAX_LINE - 1);
        lemma_boundary_splits_no_character(bytes, MAX_LINE - 1);
        valid_utf8_split(bytes, step);
        assert(bytes.take(step) =~= bytes.subrange(0, step));
        assert(bytes.skip(step) =~= bytes.subrange(step, bytes.len() as int));
        lemma_folded_rest_valid(bytes.skip(step));
        valid_utf8_concat(crlf_space(), bytes.take(step));
        valid_utf8_concat(crlf_space() + bytes.take(step), folded_rest(bytes.skip(step)));
    }
}

/// Folding well-formed UTF-8 gives well-formed UTF-8: no character is torn
/// apart by a line break.
pub proof fn lemma_folded_valid(bytes: Seq<u8>)
    requires
        valid_utf8(bytes),
    ensures
        valid_utf8(folded(bytes)),
{
    if bytes.len() > 0 {
        let step = boundary(bytes, MAX_LINE as int);
        lemma_boundary_range(bytes, MAX_LINE as int);
        lemma_boundary_splits_no_character(bytes, MAX_LINE as int);
        valid_utf8_split(bytes, step);
        assert(bytes.take(step) =~= bytes.subrange(0, step));
        assert(bytes.skip(step) =~= bytes.subrange(step, bytes.len() as int));
        lemma_folded_rest_valid(bytes.skip(step));
        valid_utf8_concat(bytes.take(step), folded_rest(bytes.skip(step)));
    }
}

/// In well-formed UTF-8 a character starts within any four bytes in a row.
proof fn lemma_start_within_four(bytes: Seq<u8>, from: int) -> (at: int)
    requires
        valid_utf8(bytes),
        0 <= from,
        from + 3 < bytes.len(),
    ensures
        from <= at <= from + 3,
        is_char_boundary(bytes, at),
        !is_continuation_byte(bytes[at]),
    decreases bytes.len(),
{
    let first = length_of_first_scalar(bytes);
    let rest = pop_first_scalar(bytes);
    assert(1 <= first <= 4 && first <= bytes.len());
    let at = if from == 0 {
        0
    } else if from <= first {
        assert(is_char_boundary(rest, 0));
        first
    } else {
        let inner = lemma_start_within_four(rest, from - first);
        inner + first
    };
    assert(is_char_boundary(bytes, at));
    is_char_boundary_iff_not_is_continuation_byte(bytes, at);
    at
}

/// In well-formed UTF-8 a segment keeps within its budget, for any budget
/// of four octets or more: the remainder is never left in one oversized
/// piece.
pub proof fn lemma_boundary_within_limit(bytes: Seq<u8>, limit: int)
    requires
        valid_utf8(bytes),
        limit >= 4,
    ensures
        boundary(bytes, limit) <= limit,
{
    if bytes.len() > limit {
        let at = lemma_start_within_four(bytes, limit - 3);
        lemma_last_start(bytes, limit);
        assert(last_start(bytes, limit) >= at);
    }
}

/// In well-formed UTF-8 no physical line is longer than 75 octets: the first
/// holds at most 75 octets of the line, each later one at most 74 behind its
/// space.
pub proof fn lemma_line_lengths(bytes: Seq<u8>, k: nat)
    requires
        valid_utf8(bytes),
    ensures
        k == 0 ==> cut(bytes, k) <= MAX_LINE,
        k > 0 ==> cut(bytes, k) - cut(bytes, (k - 1) as nat) <= MAX_LINE - 1,
{
    if k == 0 {
        lemma_boundary_within_limit(bytes, MAX_LINE as int);
    } else {
        lemma_cut_splits_no_character(bytes, (k - 1) as nat);
        lemma_boundary_within_limit(bytes.skip(cut(bytes, (k - 1) as nat)), MAX_LINE - 1);
    }
}

} // verus!
