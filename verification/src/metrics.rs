//! Per-character measures: display columns and encoded bytes.

use unicode_width::UnicodeWidthChar;
use vstd::prelude::*;
use vstd::utf8::encode_scalar;
use vstd::utf8::encode_utf8;

verus! {

/// What `unicode_width::UnicodeWidthChar::width` returns for `c`: the number
/// of terminal columns of a printable character, `None` for a control
/// character.
pub uninterp spec fn unicode_width(c: char) -> Option<usize>;

/// Calls `unicode_width::UnicodeWidthChar::width`. The result is a pure table
/// lookup on the code point; the tables hold no width above 3. The printable
/// ASCII characters take one column, and the control characters below U+00A0
/// have no width.
#[verifier::external_body]
fn unicode_char_width(c: char) -> (width: Option<usize>)
    ensures
        width == unicode_width(c),
        width matches Some(columns) ==> columns <= 3,
        ' ' <= c <= '~' ==> width == Some(1usize),
        c < ' ' || '\u{7f}' <= c < '\u{a0}' ==> width is None,
{
    UnicodeWidthChar::width(c)
}

/// Terminal columns that `c` occupies; control characters occupy none.
pub open spec fn column_width(c: char) -> nat {
    match unicode_width(c) {
        Some(columns) => columns as nat,
        None => 0,
    }
}

/// Terminal columns that `c` occupies: never more than three; one for a
/// printable ASCII character; none for a control character.
pub fn char_columns(c: char) -> (columns: usize)
    ensures
        columns == column_width(c),
        columns <= 3,
        ' ' <= c <= '~' ==> columns == 1,
        c < ' ' || '\u{7f}' <= c < '\u{a0}' ==> columns == 0,
{
    match unicode_char_width(c) {
        Some(columns) => columns,
        None => 0,
    }
}

/// Bytes of the UTF-8 encoding of `c`.
pub open spec fn utf8_len(c: char) -> nat {
    let code = c as u32;
    if code < 0x80 {
        1
    } else if code < 0x800 {
        2
    } else if code < 0x10000 {
        3
    } else {
        4
    }
}

/// Bytes of the UTF-8 encoding of `c`.
pub fn char_len_utf8(c: char) -> (len: usize)
    ensures
        len == utf8_len(c),
{
    let code = c as u32;
    if code < 0x80 {
        1
    } else if code < 0x800 {
        2
    } else if code < 0x10000 {
        3
    } else {
        4
    }
}

/// Byte offset of the character at index `n` within `content`: the encoded
/// length of the `n` characters before it.
pub open spec fn byte_offset(content: Seq<char>, n: int) -> nat
    decreases n,
{
    if n <= 0 {
        0
    } else {
        byte_offset(content, n - 1) + utf8_len(content[n - 1])
    }
}

/// Encoded length of the whole of `content`.
pub open spec fn byte_len(content: Seq<char>) -> nat {
    byte_offset(content, content.len() as int)
}

/// Offsets grow with the index, by at least one byte per character.
pub proof fn lemma_byte_offset_grows(content: Seq<char>, i: int, j: int)
    requires
        0 <= i <= j,
    ensures
        byte_offset(content, i) + (j - i) <= byte_offset(content, j),
    decreases j,
{
    if i < j {
        lemma_byte_offset_grows(content, i, j - 1);
    }
}

proof fn lemma_encoded_len_from(content: Seq<char>, k: int)
    requires
        0 <= k <= content.len(),
    ensures
        encode_utf8(content.skip(k)).len() + byte_offset(content, k) == byte_len(content),
    decreases content.len() - k,
{
    let rest = content.skip(k);
    if k < content.len() {
        assert(rest.drop_first() =~= content.skip(k + 1));
        assert(rest[0] == content[k]);
        vstd::utf8::char_is_scalar(content[k]);
        assert(encode_scalar(content[k] as u32).len() == utf8_len(content[k]));
        lemma_encoded_len_from(content, k + 1);
    } else {
        assert(rest.len() == 0);
    }
}

/// The measure used here agrees with the length of the encoded string.
pub proof fn lemma_byte_len_is_encoded_len(content: Seq<char>)
    ensures
        encode_utf8(content).len() == byte_len(content),
{
    lemma_encoded_len_from(content, 0);
    assert(content.skip(0) =~= content);
}

/// Encoded length of `content`, known to fit the machine word.
pub fn str_byte_len(content: &str) -> (len: usize)
    ensures
        len == byte_len(content@),
{
    proof {
        lemma_byte_len_is_encoded_len(content@);
    }
    content.as_bytes().len()
}

} // verus!
