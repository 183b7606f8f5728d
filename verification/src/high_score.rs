//! The high score as it is kept between two games: one line of text that
//! holds a decimal number.

use vstd::prelude::*;
use vstd::string::StrSliceExecFns;

verus! {

/// Whether the character is white space in the sense of Unicode.
pub open spec fn is_white_space(c: char) -> bool {
    let code = c as u32;
    ||| 0x09 <= code <= 0x0d
    ||| code == 0x20
    ||| code == 0x85
    ||| code == 0xa0
    ||| code == 0x1680
    ||| 0x2000 <= code <= 0x200a
    ||| code == 0x2028
    ||| code == 0x2029
    ||| code == 0x202f
    ||| code == 0x205f
    ||| code == 0x3000
}

/// Whether the character is one of the ten digits of ASCII.
pub open spec fn is_digit(c: char) -> bool {
    0x30 <= c as u32 <= 0x39
}

/// Whether every character of the text is a digit.
pub open spec fn all_digits(text: Seq<char>) -> bool {
    forall|i: int| 0 <= i < text.len() ==> is_digit(#[trigger] text[i])
}

/// The text without the white space it starts with.
pub open spec fn trim_start(text: Seq<char>) -> Seq<char>
    decreases text.len(),
{
    if text.len() > 0 && is_white_space(text.first()) {
        trim_start(text.drop_first())
    } else {
        text
    }
}

/// The text without the white space it ends with.
pub open spec fn trim_end(text: Seq<char>) -> Seq<char>
    decreases text.len(),
{
    if text.len() > 0 && is_white_space(text.last()) {
        trim_end(text.drop_last())
    } else {
        text
    }
}

/// The text without the white space around it.
pub open spec fn trimmed(text: Seq<char>) -> Seq<char> {
    trim_end(trim_start(text))
}

/// The number that a run of digits writes down.
pub open spec fn digits_value(digits: Seq<char>) -> nat
    decreases digits.len(),
{
    if digits.len() == 0 {
        0
    } else {
        (10 * digits_value(digits.drop_last()) + (digits.last() as u32 - 0x30)) as nat
    }
}

/// The number that the text writes down, if it is a decimal `i32`: an
/// optional sign, `+` or `-`, then one digit or more, and a value that an
/// `i32` can hold. Anything else, white space included, is no number.
pub open spec fn decimal_i32(text: Seq<char>) -> Option<int> {
    let signed = text.len() > 0 && (text[0] == '+' || text[0] == '-');
    let digits = if signed {
        text.drop_first()
    } else {
        text
    };
    let value = if signed && text[0] == '-' {
        -(digits_value(digits) as int)
    } else {
        digits_value(digits) as int
    };
    if digits.len() > 0 && all_digits(digits) && i32::MIN <= value <= i32::MAX {
        Some(value)
    } else {
        None
    }
}

/// The high score that a line of text holds: the number that the line
/// writes down once the white space around it is taken off, and zero if
/// that is no decimal `i32`.
pub open spec fn high_score_of(line: Seq<char>) -> int {
    match decimal_i32(trimmed(line)) {
        Some(value) => value,
        None => 0,
    }
}

/// Whether the character is white space in the sense of Unicode.
pub fn is_white_space_char(c: char) -> (white: bool)
    ensures
        white == is_white_space(c),
{
    let code = c as u32;
    (0x09 <= code && code <= 0x0d) || code == 0x20 || code == 0x85 || code == 0xa0 || code
        == 0x1680 || (0x2000 <= code && code <= 0x200a) || code == 0x2028 || code == 0x2029
        || code == 0x202f || code == 0x205f || code == 0x3000
}

/// The characters of the text.
fn chars_of(text: &str) -> (chars: Vec<char>)
    ensures
        chars@ == text@,
{
    let len = text.unicode_len();
    let mut chars: Vec<char> = Vec::new();
    let mut i: usize = 0;
    while i < len
        invariant
            len == text@.len(),
            i <= len,
            chars@ == text@.take(i as int),
        decreases len - i,
    {
        chars.push(text.get_char(i));
        assert(text@.take(i + 1) =~= text@.take(i as int).push(text@[i as int]));
        i += 1;
    }
    assert(text@.take(len as int) =~= text@);
    chars
}

/// The index of the first character that is not white space, or the
/// number of characters if there is none.
fn start_of_trimmed(chars: &Vec<char>) -> (start: usize)
    ensures
        start <= chars@.len(),
        trim_start(chars@) == chars@.skip(start as int),
{
    let mut start: usize = 0;
    assert(chars@.skip(0) =~= chars@);
    while start < chars.len() && is_white_space_char(chars[start])
        invariant
            start <= chars@.len(),
            trim_start(chars@) == trim_start(chars@.skip(start as int)),
        decreases chars@.len() - start,
    {
        assert(chars@.skip(start as int).drop_first() =~= chars@.skip(start + 1));
        start += 1;
    }
    start
}

/// The index after the last character at or after `start` that is not
/// white space, or `start` if there is none.
fn end_of_trimmed(chars: &Vec<char>, start: usize) -> (end: usize)
    requires
        start <= chars@.len(),
    ensures
        start <= end <= chars@.len(),
        trim_end(chars@.skip(start as int)) == chars@.subrange(start as int, end as int),
{
    let ghost rest = chars@.skip(start as int);
    let mut end: usize = chars.len();
    assert(rest =~= chars@.subrange(start as int, end as int));
    while end > start && is_white_space_char(chars[end - 1])
        invariant
            rest == chars@.skip(start as int),
            start <= end <= chars@.len(),
            trim_end(rest) == trim_end(chars@.subrange(start as int, end as int)),
        decreases end,
    {
        let ghost part = chars@.subrange(start as int, end as int);
        assert(part.last() == chars@[end - 1]);
        assert(part.drop_last() =~= chars@.subrange(start as int, end - 1));
        end -= 1;
    }
    proof {
        let part = chars@.subrange(start as int, end as int);
        if end > start {
            assert(part.last() == chars@[end - 1]);
        }
    }
    end
}

/// The number that the digits from `start` up to `end` write down, if all
/// of them are digits and the number is no more than `limit`.
fn digits_to_number(chars: &Vec<char>, start: usize, end: usize, limit: u32) -> (number: Option<
    u32,
>)
    requires
        start <= end <= chars@.len(),
        limit <= 0x8000_0000,
    ensures
        number == if all_digits(chars@.subrange(start as int, end as int)) && digits_value(
            chars@.subrange(start as int, end as int),
        ) <= limit {
            Some(digits_value(chars@.subrange(start as int, end as int)) as u32)
        } else {
            None
        },
{
    let ghost digits = chars@.subrange(start as int, end as int);
    let mut value: u64 = 0;
    let mut i: usize = start;
    assert(digits.take(0) =~= Seq::<char>::empty());
    while i < end
        invariant
            start <= i <= end <= chars@.len(),
            limit <= 0x8000_0000,
            digits == chars@.subrange(start as int, end as int),
            all_digits(digits.take(i - start)),
            value == digits_value(digits.take(i - start)),
            value <= limit,
        decreases end - i,
    {
        let code = chars[i] as u32;
        let ghost seen = digits.take(i - start);
        let ghost next = digits.take(i - start + 1);
        proof {
            assert(next.drop_last() =~= seen);
            assert(next.last() == chars@[i as int]);
            assert(digits[i - start] == chars@[i as int]);
        }
        if !(0x30 <= code && code <= 0x39) {
            assert(!is_digit(digits[i - start]));
            return None;
        }
        value = value * 10 + (code as u64 - 0x30);
        proof {
            assert forall|k: int| 0 <= k < next.len() implies is_digit(#[trigger] next[k]) by {
                if k < seen.len() {
                    assert(seen[k] == next[k]);
                }
            }
        }
        i += 1;
        if value > limit as u64 {
            proof {
                if all_digits(digits) {
                    lemma_digits_value_grows(digits, i - start);
                }
            }
            return None;
        }
    }
    assert(digits.take(end - start) =~= digits);
    Some(value as u32)
}

/// The number that the characters from `start` up to `end` write down, if
/// they are a decimal `i32`.
fn chars_to_i32(chars: &Vec<char>, start: usize, end: usize) -> (number: Option<i32>)
    requires
        start <= end <= chars@.len(),
    ensures
        match number {
            Some(value) => decimal_i32(chars@.subrange(start as int, end as int)) == Some(
                value as int,
            ),
            None => decimal_i32(chars@.subrange(start as int, end as int)) is None,
        },
{
    let ghost text = chars@.subrange(start as int, end as int);
    if start == end {
        return None;
    }
    let first = chars[start];
    assert(text[0] == first);
    let negative = first == '-';
    let signed = negative || first == '+';
    let digits_start = if signed {
        start + 1
    } else {
        start
    };
    let ghost digits = chars@.subrange(digits_start as int, end as int);
    assert(digits =~= if signed {
        text.drop_first()
    } else {
        text
    });
    if digits_start == end {
        return None;
    }
    if negative {
        match digits_to_number(chars, digits_start, end, 0x8000_0000) {
            Some(magnitude) => Some((-(magnitude as i64)) as i32),
            None => None,
        }
    } else {
        match digits_to_number(chars, digits_start, end, 0x7fff_ffff) {
            Some(magnitude) => Some(magnitude as i32),
            None => None,
        }
    }
}

/// The high score that a line of text holds: the number that the line
/// writes down once the white space around it is taken off, and zero if
/// that is no decimal `i32`.
pub fn parse_high_score(line: &str) -> (high_score: i32)
    ensures
        high_score == high_score_of(line@),
{
    let chars = chars_of(line);
    let start = start_of_trimmed(&chars);
    let end = end_of_trimmed(&chars, start);
    match chars_to_i32(&chars, start, end) {
        Some(number) => number,
        None => 0,
    }
}

/// A run of digits writes down at least what any part of it from the
/// start writes down.
pub proof fn lemma_digits_value_grows(digits: Seq<char>, count: int)
    requires
        all_digits(digits),
        0 <= count <= digits.len(),
    ensures
        digits_value(digits.take(count)) <= digits_value(digits),
    decreases digits.len() - count,
{
    if count < digits.len() {
        let next = digits.take(count + 1);
        assert(next.drop_last() =~= digits.take(count));
        assert(is_digit(digits[count]));
        assert(next.last() == digits[count]);
        lemma_digits_value_grows(digits, count + 1);
    } else {
        assert(digits.take(count) =~= digits);
    }
}

/// The character that writes down a digit.
pub open spec fn digit_char(digit: nat) -> char {
    ((0x30 + digit) as u8) as char
}

/// The digits that write a number down: no more of them than needed, and
/// one zero for zero.
pub open spec fn decimal_digits(number: nat) -> Seq<char>
    decreases number,
{
    if number < 10 {
        seq![digit_char(number)]
    } else {
        decimal_digits(number / 10).push(digit_char(number % 10))
    }
}

/// The text that writes a number down: a minus sign if it is negative,
/// then its digits.
pub open spec fn decimal_text(number: int) -> Seq<char> {
    if number < 0 {
        seq!['-'] + decimal_digits((-number) as nat)
    } else {
        decimal_digits(number as nat)
    }
}

/// The line that holds a high score: its decimal text and a line feed.
pub open spec fn high_score_line(high_score: int) -> Seq<char> {
    decimal_text(high_score).push('\n')
}

/// The bytes of a text of ASCII characters.
pub open spec fn ascii_bytes(text: Seq<char>) -> Seq<u8> {
    Seq::new(text.len(), |i: int| text[i] as u8)
}

/// Appends the digits that write `number` down.
fn push_decimal_digits(number: u32, bytes: &mut Vec<u8>)
    ensures
        final(bytes)@ == old(bytes)@ + ascii_bytes(decimal_digits(number as nat)),
    decreases number,
{
    if number >= 10 {
        push_decimal_digits(number / 10, bytes);
    }
    let digit = (number % 10) as u8;
    bytes.push(0x30 + digit);
    proof {
        let digits = decimal_digits(number as nat);
        if number >= 10 {
            let front = decimal_digits((number / 10) as nat);
            assert(ascii_bytes(digits) =~= ascii_bytes(front).push((0x30 + digit) as u8));
            assert(bytes@ =~= old(bytes)@ + ascii_bytes(digits));
        } else {
            assert(ascii_bytes(digits) =~= seq![(0x30 + digit) as u8]);
            assert(bytes@ =~= old(bytes)@ + ascii_bytes(digits));
        }
    }
}

/// The line that holds the high score, as the bytes to write: the decimal
/// text of the number and a line feed.
pub fn high_score_line_bytes(high_score: i32) -> (bytes: Vec<u8>)
    ensures
        bytes@ == ascii_bytes(high_score_line(high_score as int)),
{
    let mut bytes: Vec<u8> = Vec::new();
    let magnitude: u32 = if high_score < 0 {
        bytes.push(0x2d);
        (-(high_score as i64)) as u32
    } else {
        high_score as u32
    };
    push_decimal_digits(magnitude, &mut bytes);
    bytes.push(0x0a);
    assert(bytes@ =~= ascii_bytes(high_score_line(high_score as int)));
    bytes
}

/// The digits of a number are digits, there is one of them at least, and
/// they write the number down.
pub proof fn lemma_decimal_digits(number: nat)
    ensures
        decimal_digits(number).len() > 0,
        all_digits(decimal_digits(number)),
        digits_value(decimal_digits(number)) == number,
    decreases number,
{
    let digits = decimal_digits(number);
    assert(digit_char(number % 10) as u32 == 0x30 + number % 10);
    if number < 10 {
        assert(digits.drop_last() =~= Seq::<char>::empty());
        assert(digits.last() == digit_char(number));
        assert(digits_value(digits.drop_last()) == 0);
    } else {
        let front = decimal_digits(number / 10);
        lemma_decimal_digits(number / 10);
        assert(digits.drop_last() =~= front);
        assert(digits.last() == digit_char(number % 10));
        assert forall|i: int| 0 <= i < digits.len() implies is_digit(#[trigger] digits[i]) by {
            if i < front.len() {
                assert(digits[i] == front[i]);
            }
        }
    }
}

/// What is written is read back: the line that holds a high score, with
/// or without the line feed at its end, holds that score.
pub proof fn lemma_high_score_is_read_back(high_score: int)
    requires
        i32::MIN <= high_score <= i32::MAX,
    ensures
        decimal_i32(decimal_text(high_score)) == Some(high_score),
        trimmed(decimal_text(high_score)) == decimal_text(high_score),
        trimmed(high_score_line(high_score)) == decimal_text(high_score),
        high_score_of(decimal_text(high_score)) == high_score,
        high_score_of(high_score_line(high_score)) == high_score,
{
    let text = decimal_text(high_score);
    let magnitude = (if high_score < 0 {
        -high_score
    } else {
        high_score
    }) as nat;
    let digits = decimal_digits(magnitude);
    lemma_decimal_digits(magnitude);
    assert(is_digit(digits[0]));
    assert(is_digit(digits[digits.len() - 1]));
    if high_score < 0 {
        assert(text.drop_first() =~= digits);
        assert(text[0] == '-');
        assert(text.last() == digits[digits.len() - 1]);
    } else {
        assert(text[0] == digits[0]);
        assert(text.last() == digits[digits.len() - 1]);
    }
    assert(!is_white_space(text[0]));
    assert(!is_white_space(text.last()));
    assert(trim_start(text) == text);
    assert(trim_end(text) == text);
    let line = high_score_line(high_score);
    assert(line[0] == text[0]);
    assert(trim_start(line) == line);
    assert(line.last() == '\n');
    assert(line.drop_last() =~= text);
    assert(trim_end(line) == trim_end(text));
}

} // verus!
