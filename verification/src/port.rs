//! The listening port, read from the text of a configuration variable.
//!
//! A port is written as decimal digits, with an optional `+` in front and
//! nothing else: no blanks, no separators, no other sign. Leading zeros are
//! allowed. The text is read from the left, and the first thing that goes
//! wrong decides the error.

use vstd::prelude::*;
use vstd::utf8::*;

verus! {

/// The port used when no value is configured.
pub const DEFAULT_PORT: u16 = 8000;

/// Why a text is not a port.
#[derive(Clone, Copy, Debug, PartialEq, Eq, Structural)]
pub enum PortError {
    /// The text is empty.
    Empty,
    /// The text holds something that is not a digit, or a sign and nothing
    /// behind it.
    InvalidDigit,
    /// The digits stand for a number above 65535.
    Overflow,
}

/// Whether `c` is one of the ten decimal digits.
pub open spec fn is_digit(c: char) -> bool {
    '0' <= c <= '9'
}

/// Whether every character of `text` is a decimal digit.
pub open spec fn all_digits(text: Seq<char>) -> bool {
    forall|k: int| 0 <= k < text.len() ==> is_digit(#[trigger] text[k])
}

/// The number that the digit `c` stands for.
pub open spec fn digit_value(c: char) -> nat {
    (c as nat - '0' as nat) as nat
}

/// The number that a sequence of digits stands for, read as a decimal
/// numeral; the empty sequence stands for 0.
pub open spec fn decimal_value(digits: Seq<char>) -> nat
    decreases digits.len(),
{
    if digits.len() == 0 {
        0
    } else {
        10 * decimal_value(digits.drop_last()) + digit_value(digits.last())
    }
}

/// How many digits `text` begins with.
pub open spec fn digit_run(text: Seq<char>) -> nat
    decreases text.len(),
{
    if text.len() > 0 && is_digit(text[0]) {
        1 + digit_run(text.drop_first())
    } else {
        0
    }
}

/// The digits that `text` begins with.
pub open spec fn leading_digits(text: Seq<char>) -> Seq<char> {
    text.take(digit_run(text) as int)
}

/// The text without the `+` that it may begin with.
pub open spec fn without_sign(text: Seq<char>) -> Seq<char> {
    if text.len() > 0 && text[0] == '+' {
        text.drop_first()
    } else {
        text
    }
}

/// The port that unsigned text stands for, or why it stands for none.
///
/// The text is a port when it holds at least one digit and only digits, and
/// their value is at most 65535. Of the other texts, one whose leading digits
/// already exceed 65535 is `Overflow`, whatever follows them; all that remain
/// are `InvalidDigit`.
pub open spec fn port_of_digits(digits: Seq<char>) -> Result<u16, PortError> {
    if digits.len() > 0 && all_digits(digits) && decimal_value(digits) <= u16::MAX {
        Ok(decimal_value(digits) as u16)
    } else if decimal_value(leading_digits(digits)) > u16::MAX {
        Err(PortError::Overflow)
    } else {
        Err(PortError::InvalidDigit)
    }
}

/// The port that `text` stands for, or why it stands for none: `Empty` for
/// the empty text, and for any other what stands behind its optional `+`.
pub open spec fn port_of_text(text: Seq<char>) -> Result<u16, PortError> {
    if text.len() == 0 {
        Err(PortError::Empty)
    } else {
        port_of_digits(without_sign(text))
    }
}

/// The port for a configured value: the value's port when there is a value,
/// the default when there is none. A value that is no port is an error, not a
/// reason to fall back to the default.
pub open spec fn configured_port(value: Option<Seq<char>>) -> Result<u16, PortError> {
    match value {
        Some(text) => port_of_text(text),
        None => Ok(DEFAULT_PORT),
    }
}

/// The characters of an optional text.
pub open spec fn setting_text(value: Option<&str>) -> Option<Seq<char>> {
    match value {
        Some(text) => Some(text@),
        None => None,
    }
}

/// A run of `n` digits at the start of `text`, ended by the end of the text or
/// by something that is no digit, is the whole run of leading digits.
pub proof fn lemma_digit_run_ends(text: Seq<char>, n: int)
    requires
        0 <= n <= text.len(),
        all_digits(text.take(n)),
        n < text.len() ==> !is_digit(text[n]),
    ensures
        digit_run(text) == n,
    decreases n,
{
    if n > 0 {
        assert(is_digit(text.take(n)[0]));
        let rest = text.drop_first();
        assert forall|k: int| 0 <= k < n - 1 implies is_digit(#[trigger] rest.take(n - 1)[k]) by {
            assert(is_digit(text.take(n)[k + 1]));
        }
        lemma_digit_run_ends(rest, n - 1);
    }
}

/// Digits at the start of `text` belong to its leading digits, which never
/// reach beyond the text.
pub proof fn lemma_digit_run_covers(text: Seq<char>, n: int)
    requires
        0 <= n <= text.len(),
        all_digits(text.take(n)),
    ensures
        n <= digit_run(text) <= text.len(),
    decreases text.len(),
{
    if text.len() > 0 && is_digit(text[0]) {
        let rest = text.drop_first();
        if n > 0 {
            assert forall|k: int| 0 <= k < n - 1 implies is_digit(#[trigger] rest.take(n - 1)[k]) by {
                assert(is_digit(text.take(n)[k + 1]));
            }
            lemma_digit_run_covers(rest, n - 1);
        } else {
            lemma_digit_run_covers(rest, 0);
        }
    } else if n > 0 {
        assert(is_digit(text.take(n)[0]));
    }
}

/// One more digit on the right multiplies the value by ten and adds the digit.
pub proof fn lemma_decimal_value_step(text: Seq<char>, n: int)
    requires
        0 <= n < text.len(),
    ensures
        decimal_value(text.take(n + 1)) == 10 * decimal_value(text.take(n)) + digit_value(
            text[n],
        ),
{
    assert(text.take(n + 1).drop_last() == text.take(n));
}

/// Reading further never makes the value smaller.
pub proof fn lemma_decimal_value_grows(text: Seq<char>, m: int, n: int)
    requires
        0 <= m <= n <= text.len(),
    ensures
        decimal_value(text.take(m)) <= decimal_value(text.take(n)),
    decreases n - m,
{
    if m < n {
        lemma_decimal_value_grows(text, m, n - 1);
        lemma_decimal_value_step(text, n - 1);
    }
}

/// Only the empty text has an empty encoding.
proof fn lemma_encoding_empty(chars: Seq<char>)
    ensures
        encode_utf8(chars).len() == 0 <==> chars.len() == 0,
{
    if chars.len() > 0 {
        let first = encode_scalar(chars[0] as u32);
        assert(first.len() > 0);
        assert(encode_utf8(chars) == first + encode_utf8(chars.drop_first()));
    }
}

/// The sign and the digits by their code points.
proof fn lemma_code_points(c: char)
    ensures
        c as u32 == 0x2b <==> c == '+',
        0x30 <= c as u32 <= 0x39 <==> is_digit(c),
        is_digit(c) ==> digit_value(c) == c as u32 - 0x30,
{
}

/// What the first byte of the encoding of a text tells of its first
/// character: whether it is the sign, whether it is a digit and which, and,
/// where the byte is ASCII, that the rest of the text follows right behind it.
proof fn lemma_first_byte(chars: Seq<char>)
    requires
        chars.len() > 0,
    ensures
        encode_utf8(chars).len() > 0,
        encode_utf8(chars)[0] == 0x2b <==> chars[0] == '+',
        0x30 <= encode_utf8(chars)[0] <= 0x39 <==> is_digit(chars[0]),
        is_digit(chars[0]) ==> digit_value(chars[0]) == encode_utf8(chars)[0] - 0x30,
        encode_utf8(chars)[0] < 0x80 ==> encode_utf8(chars).skip(1) == encode_utf8(
            chars.drop_first(),
        ),
{
    let scalar = chars[0] as u32;
    let first = encode_scalar(scalar);
    let rest = encode_utf8(chars.drop_first());
    assert(encode_utf8(chars) == first + rest);
    assert(encode_utf8(chars)[0] == first[0]);
    lemma_code_points(chars[0]);
    if has_width_1_encoding(scalar) {
        assert((scalar & 0x7f) as u8 == scalar) by (bit_vector)
            requires
                scalar <= 0x7f,
        ;
        assert((first + rest).skip(1) == rest);
    } else {
        let low2 = ((scalar >> 6) & 0x1f) as u8;
        let low3 = ((scalar >> 12) & 0x0f) as u8;
        let low4 = ((scalar >> 18) & 0x7) as u8;
        assert(0xc0u8 | low2 >= 0x80) by (bit_vector);
        assert(0xe0u8 | low3 >= 0x80) by (bit_vector);
        assert(0xf0u8 | low4 >= 0x80) by (bit_vector);
    }
}

/// What the next byte tells while a text is read byte by byte: there is a
/// next character, it is a digit exactly if the byte is one, and behind a
/// digit the rest of the bytes encodes the rest of the text.
proof fn lemma_next_byte(text: Seq<char>, bytes: Seq<u8>, read: int)
    requires
        0 <= read <= text.len(),
        read < bytes.len(),
        bytes.skip(read) == encode_utf8(text.skip(read)),
    ensures
        read < text.len(),
        0x30 <= bytes[read] <= 0x39 <==> is_digit(text[read]),
        is_digit(text[read]) ==> digit_value(text[read]) == bytes[read] - 0x30,
        is_digit(text[read]) ==> bytes.skip(read + 1) == encode_utf8(text.skip(read + 1)),
{
    let rest = text.skip(read);
    assert(bytes.skip(read)[0] == bytes[read]);
    lemma_encoding_empty(rest);
    lemma_first_byte(rest);
    assert(rest[0] == text[read]);
    assert(rest.drop_first() == text.skip(read + 1));
    assert(bytes.skip(read).skip(1) == bytes.skip(read + 1));
}

/// Once all bytes are read, all of the text is read.
proof fn lemma_no_byte_left(text: Seq<char>, bytes: Seq<u8>, read: int)
    requires
        0 <= read <= text.len(),
        read == bytes.len(),
        bytes.skip(read) == encode_utf8(text.skip(read)),
    ensures
        read == text.len(),
        text.take(read) == text,
{
    lemma_encoding_empty(text.skip(read));
}

/// A text that is read as digits up to and including the place `read`, and
/// whose value up to there is above 65535, has leading digits above 65535,
/// and is no port.
proof fn lemma_overflow_stays(text: Seq<char>, read: int)
    requires
        0 <= read < text.len(),
        all_digits(text.take(read + 1)),
        decimal_value(text.take(read + 1)) > u16::MAX,
    ensures
        decimal_value(leading_digits(text)) > u16::MAX,
        all_digits(text) ==> decimal_value(text) > u16::MAX,
{
    lemma_digit_run_covers(text, read + 1);
    lemma_decimal_value_grows(text, read + 1, digit_run(text) as int);
    if all_digits(text) {
        assert(text.take(text.len() as int) == text);
        lemma_digit_run_ends(text, text.len() as int);
    }
}

/// Digits read so far stay digits when one more digit is read.
proof fn lemma_one_more_digit(text: Seq<char>, read: int)
    requires
        0 <= read < text.len(),
        all_digits(text.take(read)),
        is_digit(text[read]),
    ensures
        all_digits(text.take(read + 1)),
{
    assert forall|k: int| 0 <= k < read + 1 implies is_digit(#[trigger] text.take(read + 1)[k]) by {
        if k < read {
            assert(is_digit(text.take(read)[k]));
        }
    }
}

const ASCII_PLUS: u8 = 0x2b;

const ASCII_ZERO: u8 = 0x30;

const ASCII_NINE: u8 = 0x39;

/// Reads a port from `text`.
pub fn parse_port(text: &str) -> (port: Result<u16, PortError>)
    ensures
        port == port_of_text(text@),
{
    let bytes = text.as_bytes();
    let n = bytes.len();
    proof {
        lemma_encoding_empty(text@);
    }
    if n == 0 {
        return Err(PortError::Empty);
    }
    proof {
        lemma_first_byte(text@);
    }
    let start: usize = if bytes[0] == ASCII_PLUS {
        1
    } else {
        0
    };
    let ghost digits = without_sign(text@);
    let ghost unsigned = bytes@.skip(start as int);
    proof {
        assert(digits == text@.skip(start as int));
        assert(digits.skip(0) == digits);
        assert(unsigned.skip(0) == unsigned);
        assert(digits.take(0) == Seq::<char>::empty());
        lemma_encoding_empty(digits);
    }
    if start == n {
        return Err(PortError::InvalidDigit);
    }
    let mut value: u16 = 0;
    let mut i: usize = start;
    while i < n
        invariant
            n == bytes@.len(),
            start <= i <= n,
            unsigned == bytes@.skip(start as int),
            0 < digits.len(),
            i - start <= digits.len(),
            unsigned.skip(i - start) == encode_utf8(digits.skip(i - start)),
            all_digits(digits.take(i - start)),
            value == decimal_value(digits.take(i - start)),
            port_of_text(text@) == port_of_digits(digits),
        decreases n - i,
    {
        let ghost read = i - start;
        let byte = bytes[i];
        proof {
            assert(unsigned[read] == byte);
            lemma_next_byte(digits, unsigned, read);
            lemma_decimal_value_step(digits, read);
        }
        if byte < ASCII_ZERO || byte > ASCII_NINE {
            proof {
                lemma_digit_run_ends(digits, read);
                assert(!all_digits(digits));
            }
            return Err(PortError::InvalidDigit);
        }
        let next: u32 = value as u32 * 10 + (byte - ASCII_ZERO) as u32;
        proof {
            lemma_one_more_digit(digits, read);
        }
        if next > 0xffff {
            proof {
                lemma_overflow_stays(digits, read);
            }
            return Err(PortError::Overflow);
        }
        value = next as u16;
        i += 1;
    }
    proof {
        lemma_no_byte_left(digits, unsigned, n - start);
    }
    Ok(value)
}

/// The port to listen on, given the configured value if there is one.
pub fn port_from_setting(value: Option<&str>) -> (port: Result<u16, PortError>)
    ensures
        port == configured_port(setting_text(value)),
{
    match value {
        Some(text) => parse_port(text),
        None => Ok(DEFAULT_PORT),
    }
}

} // verus!
