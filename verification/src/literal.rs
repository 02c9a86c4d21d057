//! Literal values of the source language, as a parser hands them over.

use vstd::prelude::*;
use vstd::string::*;

verus! {

/// The byte of the plus sign.
const PLUS: u8 = 43;

/// The byte of the digit 0.
const DIGIT_ZERO: u8 = 48;

/// The byte of the digit 9.
const DIGIT_NINE: u8 = 57;

/// A literal of the source language.
#[derive(Debug, PartialEq, Clone)]
pub enum Literal {
    /// `null`
    Null,
    /// A string literal, without its quotes.
    String(String),
    /// A number literal, as it was written.
    Number(String),
    /// `true` or `false`
    Boolean(bool),
    /// A regular expression literal.
    RegEx,
    /// A template literal.
    Template,
}

/// The mathematical model of a [`Literal`].
pub enum LiteralView {
    Null,
    String(Seq<char>),
    Number(Seq<char>),
    Boolean(bool),
    RegEx,
    Template,
}

impl View for Literal {
    type V = LiteralView;

    open spec fn view(&self) -> LiteralView {
        match self {
            Literal::Null => LiteralView::Null,
            Literal::String(text) => LiteralView::String(text@),
            Literal::Number(text) => LiteralView::Number(text@),
            Literal::Boolean(value) => LiteralView::Boolean(*value),
            Literal::RegEx => LiteralView::RegEx,
            Literal::Template => LiteralView::Template,
        }
    }
}

/// Whether `c` is one of the ten decimal digits.
pub open spec fn is_digit(c: char) -> bool {
    '0' <= c <= '9'
}

/// Whether every character of `text` is a decimal digit.
pub open spec fn all_digits(text: Seq<char>) -> bool {
    forall|i: int| 0 <= i < text.len() ==> is_digit(#[trigger] text[i])
}

/// The number that a sequence of decimal digits denotes.
pub open spec fn digits_value(digits: Seq<char>) -> nat
    decreases digits.len(),
{
    if digits.len() == 0 {
        0
    } else {
        10 * digits_value(digits.drop_last()) + (digits.last() as nat - '0' as nat) as nat
    }
}

/// `text` without the plus sign that may stand in front of a number.
pub open spec fn unsigned_part(text: Seq<char>) -> Seq<char> {
    if text.len() > 0 && text[0] == '+' {
        text.drop_first()
    } else {
        text
    }
}

/// The one-byte number that `text` denotes: an optional plus sign followed by
/// one or more decimal digits whose value is at most 255. Any other text
/// denotes none.
pub open spec fn short_num_value(text: Seq<char>) -> Option<u8> {
    let digits = unsigned_part(text);
    if digits.len() > 0 && all_digits(digits) && digits_value(digits) <= 255 {
        Some(digits_value(digits) as u8)
    } else {
        None
    }
}

/// A sequence of digits denotes at least what any of its prefixes denotes.
pub proof fn lemma_digits_value_prefix(digits: Seq<char>, k: int)
    requires
        all_digits(digits),
        0 <= k <= digits.len(),
    ensures
        digits_value(digits.take(k)) <= digits_value(digits),
    decreases digits.len() - k,
{
    if k == digits.len() {
        assert(digits.take(k) =~= digits);
    } else {
        lemma_digits_value_prefix(digits, k + 1);
        assert(digits.take(k + 1).drop_last() =~= digits.take(k));
        assert(is_digit(digits[k]));
    }
}

/// Reads `text` as a one-byte number: an optional plus sign and then decimal
/// digits, with a value of at most 255.
pub fn parse_short_num(text: &str) -> (value: Option<u8>)
    ensures
        value == short_num_value(text@),
{
    if !text.is_ascii() {
        proof {
            let digits = unsigned_part(text@);
            let i = choose|i: int|
                0 <= i < text@.len() && !('\0' <= #[trigger] text@[i] <= '\u{7f}');
            if i > 0 && text@.len() > 0 && text@[0] == '+' {
                assert(digits[i - 1] == text@[i]);
                assert(!is_digit(digits[i - 1]));
            } else {
                assert(digits == text@);
                assert(!is_digit(digits[i]));
            }
        }
        return None;
    }
    let bytes: &[u8] = text.as_bytes();
    let len: usize = bytes.len();
    proof {
        vstd::utf8::is_ascii_chars_encode_utf8(text@);
    }
    assert(len == text@.len());
    let start: usize = if len > 0 && bytes[0] == PLUS {
        1
    } else {
        0
    };
    let ghost digits = unsigned_part(text@);
    assert(start == text@.len() - digits.len());
    assert(forall|j: int| 0 <= j < digits.len() ==> digits[j] == text@[j + start]);
    if start == len {
        return None;
    }
    let mut value: u8 = 0;
    let mut i: usize = start;
    while i < len
        invariant
            text.is_ascii(),
            len == text@.len(),
            len == bytes@.len(),
            forall|j: int| 0 <= j < text@.len() ==> text@[j] as u8 == #[trigger] bytes@[j],
            start <= i <= len,
            digits == unsigned_part(text@),
            start == text@.len() - digits.len(),
            forall|j: int| 0 <= j < digits.len() ==> digits[j] == text@[j + start],
            all_digits(digits.take(i - start)),
            value == digits_value(digits.take(i - start)),
        decreases len - i,
    {
        let byte: u8 = bytes[i];
        let ghost k = i - start;
        assert(digits[k] == text@[i as int]);
        assert(digits[k] as u8 == byte);
        assert((digits[k] as nat) < 128) by {
            assert('\0' <= text@[i as int] <= '\u{7f}');
        }
        if byte < DIGIT_ZERO || byte > DIGIT_NINE {
            assert(!is_digit(digits[k]));
            return None;
        }
        let digit: u8 = byte - DIGIT_ZERO;
        assert(digits.take(k + 1).drop_last() =~= digits.take(k));
        assert(digits_value(digits.take(k + 1)) == 10 * value + digit);
        if value > 25 || (value == 25 && digit > 5) {
            proof {
                if all_digits(digits) {
                    lemma_digits_value_prefix(digits, k + 1);
                }
            }
            return None;
        }
        value = value * 10 + digit;
        i = i + 1;
        assert(all_digits(digits.take(i - start))) by {
            assert(is_digit(digits[k]));
        }
    }
    assert(digits.take(i - start) =~= digits);
    Some(value)
}

} // verus!
