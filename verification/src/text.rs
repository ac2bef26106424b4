//! Small operations on text, stated over sequences of characters.

use vstd::prelude::*;

verus! {

/// The characters of `text`, for access by index.
pub fn chars_of(text: &str) -> (chars: Vec<char>)
    ensures
        chars@ == text@,
{
    let mut chars: Vec<char> = Vec::new();
    let iter = text.chars();
    proof {
        vstd::string::axiom_spec_iter(text);
    }
    for c in it: iter
        invariant
            it.seq() == text@,
            chars@ == text@.take(it.index()),
    {
        chars.push(c);
        assert(chars@ =~= text@.take(it.index() + 1));
    }
    assert(text@.take(text@.len() as int) =~= text@);
    chars
}

/// Index of the first `c` in `text` at or after `from`; the length of `text`
/// if there is none.
pub open spec fn find_from(text: Seq<char>, c: char, from: int) -> int
    decreases text.len() - from,
{
    if from < 0 || from >= text.len() || text[from] == c {
        from
    } else {
        find_from(text, c, from + 1)
    }
}

/// Where `find_from` stops: at the first `c`, or at the end.
pub proof fn lemma_find_from(text: Seq<char>, c: char, from: int)
    requires
        0 <= from <= text.len(),
    ensures
        from <= find_from(text, c, from) <= text.len(),
        find_from(text, c, from) < text.len() ==> text[find_from(text, c, from)] == c,
        forall|i: int| from <= i < find_from(text, c, from) ==> text[i] != c,
    decreases text.len() - from,
{
    if from < text.len() && text[from] != c {
        lemma_find_from(text, c, from + 1);
    }
}

/// Index of the first `c` in `chars` at or after `from`; the length of
/// `chars` if there is none.
pub fn find_char(chars: &Vec<char>, c: char, from: usize) -> (index: usize)
    requires
        from <= chars.len(),
    ensures
        index == find_from(chars@, c, from as int),
        from <= index <= chars.len(),
{
    let mut index = from;
    while index < chars.len() && chars[index] != c
        invariant
            from <= index <= chars.len(),
            find_from(chars@, c, from as int) == find_from(chars@, c, index as int),
        decreases chars.len() - index,
    {
        index = index + 1;
    }
    index
}

/// The characters `from..to` of `text` as a string of their own.
pub fn piece(text: &str, from: usize, to: usize) -> (part: String)
    requires
        from <= to <= text@.len(),
    ensures
        part@ == text@.subrange(from as int, to as int),
{
    text.substring_char(from, to).to_owned()
}

/// The decimal digit for `d`.
pub open spec fn digit_char(d: nat) -> char {
    if d == 0 {
        '0'
    } else if d == 1 {
        '1'
    } else if d == 2 {
        '2'
    } else if d == 3 {
        '3'
    } else if d == 4 {
        '4'
    } else if d == 5 {
        '5'
    } else if d == 6 {
        '6'
    } else if d == 7 {
        '7'
    } else if d == 8 {
        '8'
    } else {
        '9'
    }
}

/// The decimal numeral of `n`, without leading zeros.
pub open spec fn decimal(n: nat) -> Seq<char>
    decreases n,
{
    if n < 10 {
        seq![digit_char(n)]
    } else {
        decimal(n / 10).push(digit_char(n % 10))
    }
}

/// The one-character string for the digit `d`.
fn digit_text(d: usize) -> (text: &'static str)
    requires
        d < 10,
    ensures
        text@ == seq![digit_char(d as nat)],
{
    proof {
        reveal_strlit("0");
        reveal_strlit("1");
        reveal_strlit("2");
        reveal_strlit("3");
        reveal_strlit("4");
        reveal_strlit("5");
        reveal_strlit("6");
        reveal_strlit("7");
        reveal_strlit("8");
        reveal_strlit("9");
    }
    let text = if d == 0 {
        "0"
    } else if d == 1 {
        "1"
    } else if d == 2 {
        "2"
    } else if d == 3 {
        "3"
    } else if d == 4 {
        "4"
    } else if d == 5 {
        "5"
    } else if d == 6 {
        "6"
    } else if d == 7 {
        "7"
    } else if d == 8 {
        "8"
    } else {
        "9"
    };
    assert(text@ =~= seq![digit_char(d as nat)]);
    text
}

/// Appends the decimal numeral of `n` to `text`.
pub fn push_decimal(text: &mut String, n: usize)
    ensures
        final(text)@ == old(text)@ + decimal(n as nat),
    decreases n,
{
    if n >= 10 {
        push_decimal(text, n / 10);
    }
    let ghost before = text@;
    text.append(digit_text(n % 10));
    proof {
        if n >= 10 {
            assert(text@ =~= old(text)@ + decimal(n as nat));
        } else {
            assert(text@ =~= old(text)@ + decimal(n as nat));
        }
    }
}

/// White space as `char::is_whitespace` knows it.
pub open spec fn is_space(c: char) -> bool {
    let code = c as u32;
    ||| 0x09 <= code <= 0x0D
    ||| code == 0x20
    ||| code == 0x85
    ||| code == 0xA0
    ||| code == 0x1680
    ||| 0x2000 <= code <= 0x200A
    ||| code == 0x2028
    ||| code == 0x2029
    ||| code == 0x202F
    ||| code == 0x205F
    ||| code == 0x3000
}

/// Whether `c` is white space.
pub fn char_is_space(c: char) -> (space: bool)
    ensures
        space == is_space(c),
{
    let code = c as u32;
    (0x09 <= code && code <= 0x0D) || code == 0x20 || code == 0x85 || code == 0xA0 || code
        == 0x1680 || (0x2000 <= code && code <= 0x200A) || code == 0x2028 || code == 0x2029
        || code == 0x202F || code == 0x205F || code == 0x3000
}

/// Index of the first character at or after `from` that is no white space;
/// the length of `text` if there is none.
pub open spec fn skip_spaces(text: Seq<char>, from: int) -> int
    decreases text.len() - from,
{
    if from < 0 || from >= text.len() || !is_space(text[from]) {
        from
    } else {
        skip_spaces(text, from + 1)
    }
}

/// Index behind the last character before `to` that is no white space, but
/// no less than `floor`.
pub open spec fn drop_spaces(text: Seq<char>, floor: int, to: int) -> int
    decreases to - floor,
{
    if to <= floor || to > text.len() || !is_space(text[to - 1]) {
        to
    } else {
        drop_spaces(text, floor, to - 1)
    }
}

/// `text` without the white space at its beginning and at its end.
pub open spec fn trimmed(text: Seq<char>) -> Seq<char> {
    let start = skip_spaces(text, 0);
    text.subrange(start, drop_spaces(text, start, text.len() as int))
}

/// The bounds of `chars` without the white space at either end.
pub fn trim_bounds(chars: &Vec<char>) -> (bounds: (usize, usize))
    ensures
        bounds.0 == skip_spaces(chars@, 0),
        bounds.1 == drop_spaces(chars@, bounds.0 as int, chars@.len() as int),
        bounds.0 <= bounds.1 <= chars.len(),
{
    let mut start: usize = 0;
    while start < chars.len() && char_is_space(chars[start])
        invariant
            start <= chars.len(),
            skip_spaces(chars@, 0) == skip_spaces(chars@, start as int),
        decreases chars.len() - start,
    {
        start = start + 1;
    }
    let mut end = chars.len();
    while end > start && char_is_space(chars[end - 1])
        invariant
            start <= end <= chars.len(),
            drop_spaces(chars@, start as int, chars@.len() as int) == drop_spaces(
                chars@,
                start as int,
                end as int,
            ),
        decreases end - start,
    {
        end = end - 1;
    }
    (start, end)
}

/// `text` without the white space at its beginning and at its end.
pub fn trim(text: &str) -> (inner: String)
    ensures
        inner@ == trimmed(text@),
{
    let chars = chars_of(text);
    let (start, end) = trim_bounds(&chars);
    piece(text, start, end)
}

/// Why a text is not a number.
#[derive(Clone, Copy, Debug, PartialEq, Eq, Structural)]
pub enum NumberError {
    /// The text is empty.
    Empty,
    /// A character is no decimal digit, or a sign stands alone.
    InvalidDigit,
    /// The number does not fit the machine word.
    Overflow,
}

/// The value of a decimal digit.
pub open spec fn digit_value(c: char) -> Option<nat> {
    if '0' <= c <= '9' {
        Some((c as u32 - '0' as u32) as nat)
    } else {
        None
    }
}

/// The number that the first `n` characters of `digits` spell, read from the
/// left; the first character that is no digit, or with which the number
/// outgrows the machine word, ends the reading with its error.
pub open spec fn digits_value(digits: Seq<char>, n: int) -> Result<nat, NumberError>
    decreases n,
{
    if n <= 0 {
        Ok(0)
    } else {
        match digits_value(digits, n - 1) {
            Err(error) => Err(error),
            Ok(value) => match digit_value(digits[n - 1]) {
                None => Err(NumberError::InvalidDigit),
                Some(digit) => if value * 10 + digit > usize::MAX {
                    Err(NumberError::Overflow)
                } else {
                    Ok(value * 10 + digit)
                },
            },
        }
    }
}

/// The number that `text` spells: decimal digits, with or without a plus
/// sign before them.
pub open spec fn number_of(text: Seq<char>) -> Result<nat, NumberError> {
    if text.len() == 0 {
        Err(NumberError::Empty)
    } else {
        let digits = if text[0] == '+' {
            text.skip(1)
        } else {
            text
        };
        if digits.len() == 0 {
            Err(NumberError::InvalidDigit)
        } else {
            digits_value(digits, digits.len() as int)
        }
    }
}

/// Reads the number that the characters `from..to` of `chars` spell.
pub fn parse_number(chars: &Vec<char>, from: usize, to: usize) -> (number: Result<usize, NumberError>)
    requires
        from <= to <= chars.len(),
    ensures
        match number {
            Ok(value) => number_of(chars@.subrange(from as int, to as int)) == Ok::<nat, NumberError>(
                value as nat,
            ),
            Err(error) => number_of(chars@.subrange(from as int, to as int)) == Err::<
                nat,
                NumberError,
            >(error),
        },
{
    let ghost text = chars@.subrange(from as int, to as int);
    if from == to {
        return Err(NumberError::Empty);
    }
    let start = if chars[from] == '+' {
        from + 1
    } else {
        from
    };
    assert(text[0] == chars[from as int]);
    let ghost digits = chars@.subrange(start as int, to as int);
    assert(digits =~= if text[0] == '+' {
        text.skip(1)
    } else {
        text
    });
    if start == to {
        return Err(NumberError::InvalidDigit);
    }
    let mut value: usize = 0;
    let mut index = start;
    assert(number_of(text) == digits_value(digits, digits.len() as int));
    while index < to
        invariant
            start <= index <= to <= chars.len(),
            text == chars@.subrange(from as int, to as int),
            digits == chars@.subrange(start as int, to as int),
            number_of(text) == digits_value(digits, digits.len() as int),
            digits_value(digits, index - start) == Ok::<nat, NumberError>(value as nat),
        decreases to - index,
    {
        let c = chars[index];
        assert(digits[index - start] == c);
        if c < '0' || c > '9' {
            assert(digits_value(digits, index - start + 1) == Err::<nat, NumberError>(
                NumberError::InvalidDigit,
            ));
            proof {
                lemma_digits_error_stays(digits, index - start + 1, digits.len() as int);
            }
            return Err(NumberError::InvalidDigit);
        }
        let digit = (c as u32 - '0' as u32) as usize;
        let next = match value.checked_mul(10) {
            Some(tens) => tens.checked_add(digit),
            None => None,
        };
        match next {
            Some(next) => {
                value = next;
            },
            None => {
                assert(digits_value(digits, index - start + 1) == Err::<nat, NumberError>(
                    NumberError::Overflow,
                ));
                proof {
                    lemma_digits_error_stays(digits, index - start + 1, digits.len() as int);
                }
                return Err(NumberError::Overflow);
            },
        }
        index = index + 1;
    }
    Ok(value)
}

/// Once the reading of digits has failed, more characters do not mend it.
pub proof fn lemma_digits_error_stays(digits: Seq<char>, n: int, m: int)
    requires
        0 <= n <= m,
        digits_value(digits, n) is Err,
    ensures
        digits_value(digits, m) == digits_value(digits, n),
    decreases m - n,
{
    if n < m {
        lemma_digits_error_stays(digits, n, m - 1);
    }
}

/// The lower-case form of an ASCII capital; any other character itself.
pub open spec fn ascii_lower(c: char) -> char {
    if 'A' <= c <= 'Z' {
        ((c as u32) + 32) as char
    } else {
        c
    }
}

/// The lower-case form of an ASCII capital; any other character itself.
pub fn char_to_ascii_lower(c: char) -> (lower: char)
    ensures
        lower == ascii_lower(c),
{
    if 'A' <= c && c <= 'Z' {
        let code = c as u32 + 32;
        assert(0x61 <= code <= 0x7A);
        code as u8 as char
    } else {
        c
    }
}

/// `needle` stands in `text` at index `at`, where ASCII capitals in `text`
/// count as their lower-case forms.
pub open spec fn matches_lowered_at(text: Seq<char>, needle: Seq<char>, at: int) -> bool {
    &&& 0 <= at
    &&& at + needle.len() <= text.len()
    &&& forall|k: int| 0 <= k < needle.len() ==> ascii_lower(#[trigger] text[at + k]) == needle[k]
}

/// `needle` stands somewhere in `text`, capitals counting as lower case.
pub open spec fn contains_lowered(text: Seq<char>, needle: Seq<char>) -> bool {
    exists|at: int| matches_lowered_at(text, needle, at)
}

/// Whether `needle` stands in the characters `from..to` of `chars` at index
/// `at`, capitals counting as lower case.
fn matches_at(chars: &Vec<char>, from: usize, to: usize, needle: &Vec<char>, at: usize) -> (found: bool)
    requires
        from <= to <= chars.len(),
        from <= at <= to,
    ensures
        found == matches_lowered_at(
            chars@.subrange(from as int, to as int),
            needle@,
            at - from,
        ),
{
    let ghost text = chars@.subrange(from as int, to as int);
    if needle.len() > to - at {
        return false;
    }
    let mut k: usize = 0;
    while k < needle.len()
        invariant
            from <= at <= to <= chars.len(),
            at + needle.len() <= to,
            k <= needle.len(),
            text == chars@.subrange(from as int, to as int),
            forall|j: int| 0 <= j < k ==> ascii_lower(#[trigger] text[at - from + j]) == needle[j],
        decreases needle.len() - k,
    {
        assert(text[at - from + k] == chars[at + k]);
        if char_to_ascii_lower(chars[at + k]) != needle[k] {
            return false;
        }
        k = k + 1;
    }
    true
}

/// Whether `needle` stands somewhere in the characters `from..to` of
/// `chars`, capitals counting as lower case.
pub fn contains_ignoring_case(chars: &Vec<char>, from: usize, to: usize, needle: &Vec<char>) -> (found:
    bool)
    requires
        from <= to <= chars.len(),
    ensures
        found == contains_lowered(chars@.subrange(from as int, to as int), needle@),
{
    let ghost text = chars@.subrange(from as int, to as int);
    let mut at = from;
    while at < to
        invariant
            from <= at <= to <= chars.len(),
            text == chars@.subrange(from as int, to as int),
            forall|i: int| 0 <= i < at - from ==> !matches_lowered_at(text, needle@, i),
        decreases to - at,
    {
        if matches_at(chars, from, to, needle, at) {
            return true;
        }
        at = at + 1;
    }
    matches_at(chars, from, to, needle, to)
}

/// Whether the characters `from..to` of `chars` are `needle`, capitals
/// counting as lower case.
pub fn equals_ignoring_case(chars: &Vec<char>, from: usize, to: usize, needle: &Vec<char>) -> (same:
    bool)
    requires
        from <= to <= chars.len(),
    ensures
        same == (chars@.subrange(from as int, to as int).len() == needle@.len()
            && matches_lowered_at(chars@.subrange(from as int, to as int), needle@, 0)),
{
    if to - from != needle.len() {
        return false;
    }
    matches_at(chars, from, to, needle, from)
}

/// `line` without a carriage return at its end.
pub open spec fn without_return(line: Seq<char>) -> Seq<char> {
    if line.len() > 0 && line.last() == '\r' {
        line.drop_last()
    } else {
        line
    }
}

/// The lines of `text` from index `from` on. A line ends before a line feed,
/// or before a carriage return and a line feed; the last line may end with
/// the text. A text that ends with a line feed has no empty line behind it.
pub open spec fn lines_from(text: Seq<char>, from: int) -> Seq<Seq<char>>
    decreases text.len() - from,
{
    if from < 0 || from >= text.len() {
        Seq::empty()
    } else {
        let end = find_from(text, '\n', from);
        if end >= text.len() || end < from {
            seq![text.subrange(from, text.len() as int)]
        } else {
            seq![without_return(text.subrange(from, end))] + lines_from(text, end + 1)
        }
    }
}

/// The lines of `text`.
pub open spec fn lines_of(text: Seq<char>) -> Seq<Seq<char>> {
    lines_from(text, 0)
}

/// The values of a list of strings, in order.
pub open spec fn string_views(strings: Seq<String>) -> Seq<Seq<char>> {
    strings.map_values(|string: String| string@)
}

/// The lines of `text`.
pub fn split_lines(text: &str) -> (lines: Vec<String>)
    ensures
        string_views(lines@) == lines_of(text@),
{
    let chars = chars_of(text);
    let mut lines: Vec<String> = Vec::new();
    let mut from: usize = 0;
    proof {
        assert(string_views(lines@) =~= Seq::empty());
    }
    while from < chars.len()
        invariant
            chars@ == text@,
            from <= chars.len(),
            string_views(lines@) + lines_from(text@, from as int) == lines_of(text@),
        decreases chars.len() - from,
    {
        let end = find_char(&chars, '\n', from);
        let ghost before = string_views(lines@);
        if end >= chars.len() {
            let line = piece(text, from, end);
            lines.push(line);
            proof {
                assert(string_views(lines@) =~= before.push(text@.subrange(from as int, end as int)));
                assert(lines_from(text@, from as int) =~= seq![
                    text@.subrange(from as int, text@.len() as int),
                ]);
                assert(lines_from(text@, end as int) =~= Seq::empty());
                assert(string_views(lines@) + lines_from(text@, end as int) =~= before + lines_from(
                    text@,
                    from as int,
                ));
            }
            from = end;
        } else {
            let stop = if end > from && chars[end - 1] == '\r' {
                end - 1
            } else {
                end
            };
            let line = piece(text, from, stop);
            lines.push(line);
            proof {
                let whole = text@.subrange(from as int, end as int);
                if whole.len() > 0 {
                    assert(whole.last() == chars[end - 1]);
                }
                assert(text@.subrange(from as int, stop as int) =~= without_return(whole));
                assert(string_views(lines@) =~= before.push(without_return(whole)));
                assert(string_views(lines@) + lines_from(text@, end + 1) =~= before + lines_from(
                    text@,
                    from as int,
                ));
            }
            from = end + 1;
        }
    }
    proof {
        assert(lines_from(text@, from as int) =~= Seq::empty());
        assert(string_views(lines@) + Seq::<Seq<char>>::empty() =~= string_views(lines@));
    }
    lines
}

/// Where the field with index `field` begins in `text`, when the fields are
/// set apart by `separator`: behind the `field`-th separator at or after
/// `from`. Beyond the length of `text` if `text` has no such field.
pub open spec fn field_start(text: Seq<char>, separator: char, field: nat, from: int) -> int
    decreases field,
{
    if field == 0 {
        from
    } else {
        field_start(text, separator, (field - 1) as nat, find_from(text, separator, from) + 1)
    }
}

/// The field with index `field` of `text`, when the fields are set apart by
/// `separator`; `None` if `text` has fewer fields.
pub open spec fn field_of(text: Seq<char>, separator: char, field: nat) -> Option<Seq<char>> {
    let start = field_start(text, separator, field, 0);
    if 0 <= start <= text.len() {
        Some(text.subrange(start, find_from(text, separator, start)))
    } else {
        None
    }
}

/// The bounds of the field with index `field` of `chars`; `None` if there
/// are fewer fields.
pub fn field_bounds(chars: &Vec<char>, separator: char, field: usize) -> (bounds: Option<(usize, usize)>)
    ensures
        match bounds {
            Some((start, end)) => {
                &&& start <= end <= chars.len()
                &&& start == field_start(chars@, separator, field as nat, 0)
                &&& end == find_from(chars@, separator, start as int)
                &&& field_of(chars@, separator, field as nat) == Some(
                    chars@.subrange(start as int, end as int),
                )
            },
            None => field_of(chars@, separator, field as nat).is_none(),
        },
{
    let mut start: usize = 0;
    let mut left = field;
    while left > 0
        invariant
            start <= chars.len(),
            left <= field,
            field_start(chars@, separator, field as nat, 0) == field_start(
                chars@,
                separator,
                left as nat,
                start as int,
            ),
        decreases left,
    {
        let end = find_char(chars, separator, start);
        if end >= chars.len() {
            proof {
                lemma_field_start_beyond(chars@, separator, (left - 1) as nat, end + 1);
            }
            return None;
        }
        start = end + 1;
        left = left - 1;
    }
    let end = find_char(chars, separator, start);
    Some((start, end))
}

/// Behind the end of the text no field begins.
pub proof fn lemma_field_start_beyond(text: Seq<char>, separator: char, field: nat, from: int)
    requires
        from > text.len(),
    ensures
        field_start(text, separator, field, from) > text.len(),
    decreases field,
{
    if field > 0 {
        lemma_field_start_beyond(text, separator, (field - 1) as nat, from + 1);
    }
}

} // verus!
