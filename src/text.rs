//! Byte-offset arithmetic on UTF-8 text: line and column numbers, character
//! boundaries, and span extraction.
use vstd::prelude::*;
use vstd::string::*;
use vstd::utf8::*;

use crate::error::HighlightError;
use crate::span::SourceSpan;

verus! {

broadcast use vstd::utf8::encode_utf8_valid_utf8;

/// The UTF-8 bytes of a character sequence.
pub open spec fn bytes_of(s: Seq<char>) -> Seq<u8> {
    encode_utf8(s)
}

/// A text whose byte length stays within what a Rust allocation can hold.
pub open spec fn fits(s: Seq<char>) -> bool {
    bytes_of(s).len() <= isize::MAX
}

/// Number of occurrences of byte `x` in `b`.
pub open spec fn count_byte(b: Seq<u8>, x: u8) -> nat
    decreases b.len(),
{
    if b.len() == 0 {
        0
    } else {
        count_byte(b.drop_last(), x) + if b.last() == x {
            1nat
        } else {
            0nat
        }
    }
}

/// Number of bytes in `b` that begin a character (every byte that is not a
/// UTF-8 continuation byte): the character count of a well-formed range.
pub open spec fn count_leading(b: Seq<u8>) -> nat
    decreases b.len(),
{
    if b.len() == 0 {
        0
    } else {
        count_leading(b.drop_last()) + if is_continuation_byte(b.last()) {
            0nat
        } else {
            1nat
        }
    }
}

/// The nearest character boundary at or below `off`.
pub open spec fn snap_down(b: Seq<u8>, off: int) -> int
    decreases off,
{
    if off <= 0 || is_char_boundary(b, off) {
        off
    } else {
        snap_down(b, off - 1)
    }
}

/// Offset of the first byte of the line that holds offset `off`.
pub open spec fn line_start(b: Seq<u8>, off: int) -> int
    decreases off,
{
    if off <= 0 {
        0
    } else if b[off - 1] == 10u8 {
        off
    } else {
        line_start(b, off - 1)
    }
}

/// 1-based line of byte offset `off`; offsets past the end give 1. The
/// newline bytes before a boundary are exactly the newline characters before
/// it (`lemma_newline_bytes_count_newlines`).
pub open spec fn line_at(b: Seq<u8>, off: int) -> int {
    if off > b.len() {
        1
    } else {
        count_byte(b.take(snap_down(b, off)), 10u8) + 1int
    }
}

/// 1-based column (in characters) of byte offset `off`; offsets past the end
/// give 1. Between two character boundaries, the bytes that begin a character
/// are exactly the characters (`lemma_leading_bytes_count_chars`).
pub open spec fn column_at(b: Seq<u8>, off: int) -> int {
    if off > b.len() {
        1
    } else {
        let p = snap_down(b, off);
        count_leading(b.subrange(line_start(b, p), p)) + 1int
    }
}

/// A span that can be cut out of `b`: ordered, in bounds, and on character
/// boundaries at both ends.
pub open spec fn span_fits(b: Seq<u8>, span: SourceSpan) -> bool {
    &&& span.start <= span.end
    &&& span.end <= b.len()
    &&& is_char_boundary(b, span.start as int)
    &&& is_char_boundary(b, span.end as int)
}

/// The error reported for a span that cannot be cut out of `b`: the position
/// of its start, clamped into the text.
pub open spec fn invalid_span_at(b: Seq<u8>, start: int) -> HighlightError {
    let p = if start <= b.len() {
        start
    } else {
        b.len() as int
    };
    HighlightError::InvalidSpan { line: line_at(b, p) as usize, column: column_at(b, p) as usize }
}

proof fn lemma_snap_range(b: Seq<u8>, off: int)
    requires
        valid_utf8(b),
        0 <= off <= b.len(),
    ensures
        0 <= snap_down(b, off) <= off,
        is_char_boundary(b, snap_down(b, off)),
    decreases off,
{
    if off > 0 && !is_char_boundary(b, off) {
        lemma_snap_range(b, off - 1);
    }
}

/// A boundary of the whole text stays a boundary of any suffix that starts on
/// a boundary.
proof fn lemma_boundary_of_suffix(b: Seq<u8>, start: int, end: int)
    requires
        valid_utf8(b),
        0 <= start <= end <= b.len(),
        is_char_boundary(b, start),
        is_char_boundary(b, end),
    ensures
        valid_utf8(b.subrange(start, b.len() as int)),
        is_char_boundary(b.subrange(start, b.len() as int), end - start),
{
    let r = b.subrange(start, b.len() as int);
    valid_utf8_split(b, start);
    is_char_boundary_start_end_of_seq(r);
    if end < b.len() {
        is_char_boundary_iff_not_is_continuation_byte(b, end);
        is_char_boundary_iff_not_is_continuation_byte(r, end - start);
    }
}

proof fn lemma_continuation_mask(x: u8)
    ensures
        ((x & 0xC0u8) == 0x80u8) == is_continuation_byte(x),
{
    assert(((x & 0xC0u8) == 0x80u8) == (0x80u8 <= x && x <= 0xbfu8)) by (bit_vector);
}

proof fn lemma_count_leading_concat(a: Seq<u8>, b: Seq<u8>)
    ensures
        count_leading(a + b) == count_leading(a) + count_leading(b),
    decreases b.len(),
{
    if b.len() == 0 {
        assert(a + b =~= a);
    } else {
        lemma_count_leading_concat(a, b.drop_last());
        assert((a + b).drop_last() =~= a + b.drop_last());
    }
}

proof fn lemma_low_byte(v: u32)
    ensures
        !is_continuation_byte((v & 0x7F) as u8),
{
    assert(((v & 0x7F) as u8) <= 0x7Fu8) by (bit_vector);
}

proof fn lemma_leading_bytes(v: u32)
    ensures
        !is_continuation_byte(0xC0u8 | ((v >> 6) & 0x1F) as u8),
        !is_continuation_byte(0xE0u8 | ((v >> 12) & 0x0F) as u8),
        !is_continuation_byte(0xF0u8 | ((v >> 18) & 0x7) as u8),
{
    assert(0xC0u8 <= (0xC0u8 | ((v >> 6) & 0x1F) as u8)) by (bit_vector);
    assert(0xE0u8 <= (0xE0u8 | ((v >> 12) & 0x0F) as u8)) by (bit_vector);
    assert(0xF0u8 <= (0xF0u8 | ((v >> 18) & 0x7) as u8)) by (bit_vector);
}

proof fn lemma_continuation_bytes(v: u32)
    ensures
        is_continuation_byte(0x80u8 | (v & 0x3F) as u8),
        is_continuation_byte(0x80u8 | ((v >> 6) & 0x3F) as u8),
        is_continuation_byte(0x80u8 | ((v >> 12) & 0x3F) as u8),
{
    assert(0x80u8 <= (0x80u8 | (v & 0x3F) as u8) <= 0xBFu8) by (bit_vector);
    assert(0x80u8 <= (0x80u8 | ((v >> 6) & 0x3F) as u8) <= 0xBFu8) by (bit_vector);
    assert(0x80u8 <= (0x80u8 | ((v >> 12) & 0x3F) as u8) <= 0xBFu8) by (bit_vector);
}

proof fn lemma_scalar_counted(v: u32)
    ensures
        count_leading(encode_scalar(v)) == 1,
{
    let e = encode_scalar(v);
    lemma_low_byte(v);
    lemma_leading_bytes(v);
    lemma_continuation_bytes(v);
    reveal_with_fuel(count_leading, 5);
    if has_width_1_encoding(v) {
        assert(e.drop_last() =~= Seq::<u8>::empty());
    } else if has_width_2_encoding(v) {
        assert(e.drop_last() =~= seq![leading_byte_width_2(v)]);
        assert(e.drop_last().drop_last() =~= Seq::<u8>::empty());
    } else if has_width_3_encoding(v) {
        assert(e.drop_last() =~= seq![leading_byte_width_3(v), second_last_continuation_byte(v)]);
        assert(e.drop_last().drop_last() =~= seq![leading_byte_width_3(v)]);
        assert(e.drop_last().drop_last().drop_last() =~= Seq::<u8>::empty());
    } else {
        assert(e.drop_last() =~= seq![
            leading_byte_width_4(v),
            third_last_continuation_byte(v),
            second_last_continuation_byte(v),
        ]);
        assert(e.drop_last().drop_last() =~= seq![
            leading_byte_width_4(v),
            third_last_continuation_byte(v),
        ]);
        assert(e.drop_last().drop_last().drop_last() =~= seq![leading_byte_width_4(v)]);
        assert(e.drop_last().drop_last().drop_last().drop_last() =~= Seq::<u8>::empty());
    }
}

/// Counting the bytes that begin a character counts the characters: the
/// UTF-8 encoding of `cs` has exactly `cs.len()` of them.
pub proof fn lemma_leading_bytes_count_chars(cs: Seq<char>)
    ensures
        count_leading(bytes_of(cs)) == cs.len(),
    decreases cs.len(),
{
    if cs.len() > 0 {
        lemma_leading_bytes_count_chars(cs.drop_first());
        lemma_scalar_counted(cs[0] as u32);
        lemma_count_leading_concat(encode_scalar(cs[0] as u32), encode_utf8(cs.drop_first()));
    }
}

/// Number of newline characters in `cs`.
pub open spec fn count_newlines_in(cs: Seq<char>) -> nat
    decreases cs.len(),
{
    if cs.len() == 0 {
        0
    } else {
        (if cs[0] == '\n' {
            1nat
        } else {
            0nat
        }) + count_newlines_in(cs.drop_first())
    }
}

proof fn lemma_count_byte_concat(a: Seq<u8>, b: Seq<u8>, x: u8)
    ensures
        count_byte(a + b, x) == count_byte(a, x) + count_byte(b, x),
    decreases b.len(),
{
    if b.len() == 0 {
        assert(a + b =~= a);
    } else {
        lemma_count_byte_concat(a, b.drop_last(), x);
        assert((a + b).drop_last() =~= a + b.drop_last());
    }
}

proof fn lemma_scalar_newlines(c: char)
    ensures
        count_byte(encode_scalar(c as u32), 10u8) == if c == '\n' {
            1nat
        } else {
            0nat
        },
{
    let v = c as u32;
    let e = encode_scalar(v);
    assert(v <= 0x7F ==> (((v & 0x7F) as u8 == 10u8) == (v == 10u32))) by (bit_vector);
    assert(0xC0u8 <= (0xC0u8 | ((v >> 6) & 0x1F) as u8)) by (bit_vector);
    assert(0xE0u8 <= (0xE0u8 | ((v >> 12) & 0x0F) as u8)) by (bit_vector);
    assert(0xF0u8 <= (0xF0u8 | ((v >> 18) & 0x7) as u8)) by (bit_vector);
    assert(0x80u8 <= (0x80u8 | (v & 0x3F) as u8)) by (bit_vector);
    assert(0x80u8 <= (0x80u8 | ((v >> 6) & 0x3F) as u8)) by (bit_vector);
    assert(0x80u8 <= (0x80u8 | ((v >> 12) & 0x3F) as u8)) by (bit_vector);
    assert((c == '\n') == (v == 10u32));
    reveal_with_fuel(count_byte, 5);
    if has_width_1_encoding(v) {
        assert(e.drop_last() =~= Seq::<u8>::empty());
    } else if has_width_2_encoding(v) {
        assert(e.drop_last() =~= seq![leading_byte_width_2(v)]);
        assert(e.drop_last().drop_last() =~= Seq::<u8>::empty());
    } else if has_width_3_encoding(v) {
        assert(e.drop_last() =~= seq![leading_byte_width_3(v), second_last_continuation_byte(v)]);
        assert(e.drop_last().drop_last() =~= seq![leading_byte_width_3(v)]);
        assert(e.drop_last().drop_last().drop_last() =~= Seq::<u8>::empty());
    } else {
        assert(e.drop_last() =~= seq![
            leading_byte_width_4(v),
            third_last_continuation_byte(v),
            second_last_continuation_byte(v),
        ]);
        assert(e.drop_last().drop_last() =~= seq![
            leading_byte_width_4(v),
            third_last_continuation_byte(v),
        ]);
        assert(e.drop_last().drop_last().drop_last() =~= seq![leading_byte_width_4(v)]);
        assert(e.drop_last().drop_last().drop_last().drop_last() =~= Seq::<u8>::empty());
    }
}

/// Counting newline bytes counts newline characters: no other character's
/// UTF-8 encoding holds the byte 10.
pub proof fn lemma_newline_bytes_count_newlines(cs: Seq<char>)
    ensures
        count_byte(bytes_of(cs), 10u8) == count_newlines_in(cs),
    decreases cs.len(),
{
    if cs.len() > 0 {
        lemma_newline_bytes_count_newlines(cs.drop_first());
        lemma_scalar_newlines(cs[0]);
        lemma_count_byte_concat(encode_scalar(cs[0] as u32), encode_utf8(cs.drop_first()), 10u8);
    }
}

/// Two texts with the same UTF-8 bytes are the same text.
pub proof fn lemma_encode_injective(t1: Seq<char>, t2: Seq<char>)
    requires
        bytes_of(t1) == bytes_of(t2),
    ensures
        t1 == t2,
{
    vstd::utf8::encode_utf8_decode_utf8(t1);
    vstd::utf8::encode_utf8_decode_utf8(t2);
}

/// Snaps `off` down to the nearest character boundary of `s`.
fn snap_to_boundary(s: &str, off: usize) -> (p: usize)
    requires
        off <= s.spec_bytes().len(),
    ensures
        p == snap_down(s.spec_bytes(), off as int),
        p <= off,
        is_char_boundary(s.spec_bytes(), p as int),
{
    let ghost b = s.spec_bytes();
    proof {
        lemma_snap_range(b, off as int);
    }
    let mut p = off;
    while !s.is_char_boundary(p)
        invariant
            valid_utf8(b),
            b == s.spec_bytes(),
            p <= off,
            snap_down(b, p as int) == snap_down(b, off as int),
        decreases p,
    {
        p = p - 1;
    }
    p
}

/// Number of newline bytes among the first `end` bytes of `bytes`.
fn count_newlines(bytes: &[u8], end: usize) -> (n: usize)
    requires
        end <= bytes@.len(),
    ensures
        n == count_byte(bytes@.take(end as int), 10u8),
        n <= end,
{
    let mut n: usize = 0;
    let mut i: usize = 0;
    while i < end
        invariant
            i <= end <= bytes@.len(),
            n == count_byte(bytes@.take(i as int), 10u8),
            n <= i,
        decreases end - i,
    {
        assert(bytes@.take(i + 1).drop_last() =~= bytes@.take(i as int));
        if bytes[i] == 10u8 {
            n = n + 1;
        }
        i = i + 1;
    }
    n
}

/// 1-based line number of byte offset `byte_offset` in `source`.
///
/// Offsets past the end give 1; offsets inside a character count as that
/// character's first byte.
pub fn calculate_line_number(source: &str, byte_offset: usize) -> (r: usize)
    requires
        fits(source@),
    ensures
        r == line_at(source.spec_bytes(), byte_offset as int),
        r >= 1,
{
    let bytes = source.as_bytes();
    if byte_offset > bytes.len() {
        return 1;
    }
    let p = snap_to_boundary(source, byte_offset);
    let n = count_newlines(bytes, p);
    n + 1
}

/// 1-based column, counted in characters, of byte offset `byte_offset` in
/// `source`.
///
/// Offsets past the end give 1; offsets inside a character count as that
/// character's first byte.
pub fn calculate_column_number(source: &str, byte_offset: usize) -> (r: usize)
    requires
        fits(source@),
    ensures
        r == column_at(source.spec_bytes(), byte_offset as int),
        r >= 1,
{
    let bytes = source.as_bytes();
    let ghost b = bytes@;
    if byte_offset > bytes.len() {
        return 1;
    }
    let p = snap_to_boundary(source, byte_offset);
    let mut ls = p;
    while ls > 0 && bytes[ls - 1] != 10u8
        invariant
            ls <= p <= b.len(),
            b == bytes@,
            line_start(b, ls as int) == line_start(b, p as int),
        decreases ls,
    {
        ls = ls - 1;
    }
    let mut k = ls;
    let mut n: usize = 0;
    while k < p
        invariant
            ls <= k <= p <= b.len(),
            b == bytes@,
            n == count_leading(b.subrange(ls as int, k as int)),
            n <= k - ls,
        decreases p - k,
    {
        assert(b.subrange(ls as int, k + 1).drop_last() =~= b.subrange(ls as int, k as int));
        let byte = bytes[k];
        proof {
            lemma_continuation_mask(byte);
        }
        if (byte & 0xC0u8) != 0x80u8 {
            n = n + 1;
        }
        k = k + 1;
    }
    n + 1
}

/// The text of `span` within `source`.
///
/// Fails with `InvalidSpan` when the span is inverted, out of bounds, or does
/// not start and end on character boundaries; the error then carries the
/// position of the span's start, clamped into the text.
pub fn extract_span_text(source: &str, span: SourceSpan) -> (r: Result<String, HighlightError>)
    requires
        fits(source@),
    ensures
        match r {
            Ok(t) => span_fits(source.spec_bytes(), span) && bytes_of(t@) == source.spec_bytes().subrange(
                span.start as int,
                span.end as int,
            ) && bytes_of(t@).len() <= source.spec_bytes().len(),
            Err(e) => !span_fits(source.spec_bytes(), span) && e == invalid_span_at(
                source.spec_bytes(),
                span.start as int,
            ),
        },
{
    let ghost b = source.spec_bytes();
    let start = span.start as usize;
    let end = span.end as usize;
    let len = source.len();
    if start > end || end > len || start > len {
        let clamped = if start < len {
            start
        } else {
            len
        };
        let line = calculate_line_number(source, clamped);
        let column = calculate_column_number(source, clamped);
        return Err(HighlightError::InvalidSpan { line, column });
    }
    if !source.is_char_boundary(start) || !source.is_char_boundary(end) {
        let line = calculate_line_number(source, start);
        let column = calculate_column_number(source, start);
        return Err(HighlightError::InvalidSpan { line, column });
    }
    proof {
        lemma_boundary_of_suffix(b, start as int, end as int);
    }
    let (_, rest) = source.split_at(start);
    assert(rest.spec_bytes() =~= b.subrange(start as int, b.len() as int));
    let (mid, _) = rest.split_at(end - start);
    assert(mid.spec_bytes() =~= b.subrange(start as int, end as int));
    let t = mid.to_owned();
    Ok(t)
}

} // verus!
