//! The text of the input: a list of fields separated by commas, each with
//! optional white space around it.

use vstd::prelude::*;
use vstd::string::StringSliceAdditionalSpecFns;
use vstd::utf8::{
    decode_first_scalar, decode_utf8, decode_utf8_first_scalar, decode_utf8_split, encode_utf8,
    encode_utf8_decode_utf8, encode_utf8_valid_utf8, is_char_boundary,
    is_char_boundary_iff_not_is_continuation_byte, is_char_boundary_start_end_of_seq,
    pop_first_scalar, take_first_scalar, valid_utf8, valid_utf8_split,
};

verus! {

/// The character that separates two fields.
pub const SEPARATOR: char = ',';

/// The byte that encodes the separator. In UTF-8 no other character holds it.
const SEPARATOR_BYTE: u8 = 0x2c;

/// The characters that Unicode classes as White_Space.
pub open spec fn is_whitespace(c: char) -> bool {
    ||| '\u{9}' <= c <= '\u{d}'
    ||| c == ' '
    ||| c == '\u{85}'
    ||| c == '\u{a0}'
    ||| c == '\u{1680}'
    ||| '\u{2000}' <= c <= '\u{200a}'
    ||| c == '\u{2028}'
    ||| c == '\u{2029}'
    ||| c == '\u{202f}'
    ||| c == '\u{205f}'
    ||| c == '\u{3000}'
}

/// The sequence without the white space at its start.
pub open spec fn trim_start(s: Seq<char>) -> Seq<char>
    decreases s.len(),
{
    if s.len() > 0 && is_whitespace(s[0]) {
        trim_start(s.drop_first())
    } else {
        s
    }
}

/// The sequence without the white space at its end.
pub open spec fn trim_end(s: Seq<char>) -> Seq<char>
    decreases s.len(),
{
    if s.len() > 0 && is_whitespace(s.last()) {
        trim_end(s.drop_last())
    } else {
        s
    }
}

/// The sequence without the white space at either end.
pub open spec fn trim(s: Seq<char>) -> Seq<char> {
    trim_end(trim_start(s))
}

/// The sequence holds no separator.
pub open spec fn is_piece(s: Seq<char>) -> bool {
    forall|i: int| 0 <= i < s.len() ==> s[i] != SEPARATOR
}

/// The number of characters before the first separator, or the length of
/// the sequence where it holds none.
pub open spec fn first_field_len(s: Seq<char>) -> nat
    decreases s.len(),
{
    if s.len() == 0 || s[0] == SEPARATOR {
        0
    } else {
        1 + first_field_len(s.drop_first())
    }
}

/// The pieces between the separators, in order. A sequence with `n`
/// separators has `n + 1` pieces; a piece may be empty.
pub open spec fn split(s: Seq<char>) -> Seq<Seq<char>>
    decreases s.len(),
{
    let n = first_field_len(s);
    if n < s.len() {
        seq![s.take(n as int)] + split(s.skip(n as int + 1))
    } else {
        seq![s]
    }
}

/// The fields of the input: the pieces between the separators, each without
/// the white space around it.
pub open spec fn fields(s: Seq<char>) -> Seq<Seq<char>> {
    split(s).map_values(|piece: Seq<char>| trim(piece))
}

/// What each string of a sequence holds.
pub open spec fn texts(tokens: Seq<&str>) -> Seq<Seq<char>> {
    tokens.map_values(|token: &str| token@)
}

/// Where the first `k` characters are white space and another character or
/// the end follows, `trim_start` takes those `k` away.
proof fn lemma_trim_start(s: Seq<char>, k: int)
    requires
        0 <= k <= s.len(),
        forall|i: int| 0 <= i < k ==> is_whitespace(s[i]),
        k < s.len() ==> !is_whitespace(s[k]),
    ensures
        trim_start(s) == s.skip(k),
    decreases k,
{
    if k > 0 {
        lemma_trim_start(s.drop_first(), k - 1);
    }
}

/// Where all from the `k`-th character on is white space and another
/// character or the start stands before it, `trim_end` keeps the first `k`.
proof fn lemma_trim_end(s: Seq<char>, k: int)
    requires
        0 <= k <= s.len(),
        forall|i: int| k <= i < s.len() ==> is_whitespace(s[i]),
        k > 0 ==> !is_whitespace(s[k - 1]),
    ensures
        trim_end(s) == s.take(k),
    decreases s.len() - k,
{
    if k < s.len() {
        lemma_trim_end(s.drop_last(), k);
    }
}

/// Where the first `k` characters are no separators and a separator or the
/// end follows, the first field has `k` characters.
proof fn lemma_first_field_len(s: Seq<char>, k: int)
    requires
        0 <= k <= s.len(),
        forall|j: int| 0 <= j < k ==> s[j] != SEPARATOR,
        k < s.len() ==> s[k] == SEPARATOR,
    ensures
        first_field_len(s) == k,
    decreases k,
{
    if k > 0 {
        lemma_first_field_len(s.drop_first(), k - 1);
    }
}

/// Every character takes at least one byte.
proof fn lemma_encoding_len(chars: Seq<char>)
    ensures
        chars.len() <= encode_utf8(chars).len(),
    decreases chars.len(),
{
    if chars.len() > 0 {
        lemma_encoding_len(chars.drop_first());
    }
}

/// Bytes without the separator's byte encode characters without the
/// separator.
proof fn lemma_no_separator(bytes: Seq<u8>)
    requires
        valid_utf8(bytes),
        forall|i: int| 0 <= i < bytes.len() ==> bytes[i] != SEPARATOR_BYTE,
    ensures
        forall|j: int| 0 <= j < decode_utf8(bytes).len() ==> decode_utf8(bytes)[j] != SEPARATOR,
    decreases bytes.len(),
{
    if bytes.len() > 0 {
        let first = decode_first_scalar(bytes) as char;
        let rest = pop_first_scalar(bytes);
        assert(first != SEPARATOR) by {
            // The separator is encoded by its byte alone, which would stand first.
            decode_utf8_first_scalar(bytes);
            assert((0x2c_u32 & 0x7f) as u8 == 0x2c_u8) by (bit_vector);
            if first == SEPARATOR {
                assert(take_first_scalar(bytes)[0] == bytes[0]);
            }
        }
        lemma_no_separator(rest);
        assert(decode_utf8(bytes) == seq![first] + decode_utf8(rest));
    }
}

/// Where the first byte is the separator's, the first character is the
/// separator and the second starts at the second byte.
proof fn lemma_separator_first(bytes: Seq<u8>)
    requires
        valid_utf8(bytes),
        bytes.len() > 0,
        bytes[0] == SEPARATOR_BYTE,
    ensures
        is_char_boundary(bytes, 1),
        decode_utf8(bytes) == seq![SEPARATOR] + decode_utf8(bytes.skip(1)),
{
    assert((0x2c_u8 & 0x7f) == 0x2c_u8) by (bit_vector);
    reveal_with_fuel(is_char_boundary, 2);
}

/// Whether Unicode classes the character as White_Space.
pub fn whitespace(c: char) -> (r: bool)
    ensures
        r == is_whitespace(c),
{
    ('\u{9}' <= c && c <= '\u{d}') || c == ' ' || c == '\u{85}' || c == '\u{a0}' || c
        == '\u{1680}' || ('\u{2000}' <= c && c <= '\u{200a}') || c == '\u{2028}' || c
        == '\u{2029}' || c == '\u{202f}' || c == '\u{205f}' || c == '\u{3000}'
}

/// The string without the white space at either end.
pub fn trimmed<'a>(text: &'a str) -> (inner: &'a str)
    ensures
        inner@ == trim(text@),
{
    // A text of `limit` bytes holds at most as many characters, which keeps
    // the positions counted below within `usize`.
    let limit: usize = text.as_bytes().len();
    proof {
        lemma_encoding_len(text@);
    }
    let mut index: usize = 0;
    let mut first: usize = 0;
    let mut end: usize = 0;
    for c in it: text.chars()
        invariant
            it.seq() == text@,
            index == it.index(),
            text@.len() <= limit,
            first <= end <= index,
            forall|i: int| 0 <= i < first ==> is_whitespace(text@[i]),
            forall|i: int| end <= i < index ==> is_whitespace(text@[i]),
            first < end ==> !is_whitespace(text@[first as int]) && !is_whitespace(text@[end - 1]),
            first == end ==> first == 0,
    {
        if !whitespace(c) {
            if first == end {
                first = index;
            }
            end = index + 1;
        }
        index += 1;
    }
    proof {
        let s = text@;
        if first < end {
            lemma_trim_start(s, first as int);
            lemma_trim_end(s.skip(first as int), end - first);
        } else {
            lemma_trim_start(s, s.len() as int);
        }
    }
    text.substring_char(first, end)
}

/// Cuts the text at its first comma: the piece before it, and what follows
/// it. A text without a comma is one piece, with nothing to follow.
pub fn split_first<'a>(text: &'a str) -> (parts: (&'a str, Option<&'a str>))
    ensures
        is_piece(parts.0@),
        (match parts.1 {
            Some(rest) => text@ == parts.0@ + seq![SEPARATOR] + rest@,
            None => text@ == parts.0@,
        }),
{
    let bytes = text.as_bytes();
    let mut cut: usize = 0;
    while cut < bytes.len() && bytes[cut] != SEPARATOR_BYTE
        invariant
            cut <= bytes@.len(),
            forall|i: int| 0 <= i < cut ==> bytes@[i] != SEPARATOR_BYTE,
        decreases bytes@.len() - cut,
    {
        cut += 1;
    }
    proof {
        encode_utf8_valid_utf8(text@);
        encode_utf8_decode_utf8(text@);
        if cut < bytes@.len() {
            is_char_boundary_iff_not_is_continuation_byte(bytes@, cut as int);
        } else {
            is_char_boundary_start_end_of_seq(bytes@);
        }
    }
    let (piece, tail) = text.split_at(cut);
    proof {
        valid_utf8_split(bytes@, cut as int);
        decode_utf8_split(bytes@, cut as int);
        encode_utf8_decode_utf8(piece@);
        encode_utf8_decode_utf8(tail@);
        assert(text@ == piece@ + tail@);
        lemma_no_separator(bytes@.subrange(0, cut as int));
    }
    if cut == bytes.len() {
        return (piece, None);
    }
    proof {
        lemma_separator_first(bytes@.subrange(cut as int, bytes@.len() as int));
    }
    let (_, rest) = tail.split_at(1);
    proof {
        encode_utf8_decode_utf8(rest@);
        assert(tail@ == seq![SEPARATOR] + rest@);
    }
    (piece, Some(rest))
}

/// Splits the input at each comma and strips the white space around each
/// piece. An input with `n` commas gives `n + 1` fields, the empty input one
/// empty field.
pub fn tokenize<'a>(input: &'a str) -> (tokens: Vec<&'a str>)
    ensures
        texts(tokens@) == fields(input@),
{
    let mut tokens: Vec<&'a str> = Vec::new();
    let mut rest: &'a str = input;
    loop
        invariant_except_break
            fields(input@) == texts(tokens@) + fields(rest@),
        ensures
            fields(input@) == texts(tokens@),
        decreases rest@.len(),
    {
        let (piece, following) = split_first(rest);
        let token = trimmed(piece);
        proof {
            lemma_first_field_len(rest@, piece@.len() as int);
            if let Some(next) = following {
                assert(rest@.take(piece@.len() as int) == piece@);
                assert(rest@.skip(piece@.len() as int + 1) == next@);
                assert(fields(rest@) == seq![token@] + fields(next@));
            } else {
                assert(fields(rest@) == seq![token@]);
            }
        }
        tokens.push(token);
        match following {
            Some(next) => {
                rest = next;
            },
            None => {
                break ;
            },
        }
    }
    tokens
}

} // verus!
