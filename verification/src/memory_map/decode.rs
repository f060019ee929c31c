//! Checks at the border where a document is decoded: integers that may be
//! written as hexadecimal strings, and strings that must be ASCII.
//!
//! An address is given as an integer that is not negative, or as a string:
//! `0x`, then hexadecimal digits, among which `_` may stand for readability,
//! as in `0xFFFF_FFFF`.

use vstd::prelude::*;
use vstd::string::StringExecFns;
use vstd::utf8::encode_utf8;

verus! {

/// What a document holds where an integer is expected.
#[derive(Clone, Debug, PartialEq)]
pub enum Scalar {
    Signed(i64),
    Unsigned(u64),
    Str(String),
}

/// The model of a scalar.
pub enum ScalarView {
    Signed(int),
    Unsigned(int),
    Str(Seq<char>),
}

impl View for Scalar {
    type V = ScalarView;

    open spec fn view(&self) -> ScalarView {
        match *self {
            Scalar::Signed(value) => ScalarView::Signed(value as int),
            Scalar::Unsigned(value) => ScalarView::Unsigned(value as int),
            Scalar::Str(value) => ScalarView::Str(value@),
        }
    }
}

/// Why a value of a document was refused.
#[derive(Clone, Debug, PartialEq)]
pub enum DecodeError {
    /// A negative integer, or a string that is no hexadecimal number that a
    /// `u64` holds, stands where an integer is expected.
    InvalidValue { unexpected: Scalar },
    /// A string holds a character outside ASCII.
    NonAscii { string: String },
}

/// What the integer adapter says it expects.
pub open spec fn expected_integer() -> Seq<char> {
    "\"0x\" prefixed hex string or u64"@
}

/// The message of the error that serde's `de::value::Error` makes of an
/// unexpected value and of the words for what was expected.
pub uninterp spec fn invalid_value_message(unexpected: ScalarView, expected: Seq<char>) -> Seq<
    char,
>;

/// Calls `serde::de::Error::invalid_value` for `serde::de::value::Error` and
/// returns the message of the error it makes. The message is named, not
/// spelled out: serde alone decides how it words the unexpected value.
#[verifier::external_body]
fn invalid_value_text(unexpected: &Scalar, expected: &str) -> (text: String)
    ensures
        text@ == invalid_value_message(unexpected@, expected@),
{
    let unexpected = match unexpected {
        Scalar::Signed(value) => serde::de::Unexpected::Signed(*value),
        Scalar::Unsigned(value) => serde::de::Unexpected::Unsigned(*value),
        Scalar::Str(value) => serde::de::Unexpected::Str(value.as_str()),
    };
    let error: serde::de::value::Error = serde::de::Error::invalid_value(unexpected, &expected);
    error.to_string()
}

impl DecodeError {
    /// The words of the error.
    pub open spec fn message_text(self) -> Seq<char> {
        match self {
            DecodeError::InvalidValue { unexpected } => invalid_value_message(
                unexpected@,
                expected_integer(),
            ),
            DecodeError::NonAscii { string } => "string "@ + string@
                + " contains non-ascii characters"@,
        }
    }

    /// Puts the error into words.
    pub fn message(&self) -> (text: String)
        ensures
            text@ == self.message_text(),
    {
        match self {
            DecodeError::InvalidValue { unexpected } => invalid_value_text(
                unexpected,
                "\"0x\" prefixed hex string or u64",
            ),
            DecodeError::NonAscii { string } => {
                let mut text = String::from_str("string ");
                text.append(string.as_str());
                text.append(" contains non-ascii characters");
                text
            },
        }
    }
}

/// The byte `_`, which may stand among the digits.
pub const SEPARATOR: u8 = 0x5f;

/// `0`..`9`, `a`..`f` or `A`..`F`.
pub open spec fn is_hex_digit(byte: u8) -> bool {
    ||| 0x30 <= byte <= 0x39
    ||| 0x61 <= byte <= 0x66
    ||| 0x41 <= byte <= 0x46
}

/// The value of a hexadecimal digit, and 0 for any other byte.
pub open spec fn hex_digit_value(byte: u8) -> int {
    if 0x30 <= byte <= 0x39 {
        byte - 0x30
    } else if 0x61 <= byte <= 0x66 {
        byte - 0x61 + 10
    } else if 0x41 <= byte <= 0x46 {
        byte - 0x41 + 10
    } else {
        0
    }
}

/// The bytes without the separators among them.
pub open spec fn without_separators(bytes: Seq<u8>) -> Seq<u8>
    decreases bytes.len(),
{
    if bytes.len() == 0 {
        bytes
    } else if bytes.last() == SEPARATOR {
        without_separators(bytes.drop_last())
    } else {
        without_separators(bytes.drop_last()).push(bytes.last())
    }
}

/// The number that a sequence of hexadecimal digits writes, most significant
/// digit first.
pub open spec fn hex_value(digits: Seq<u8>) -> int
    decreases digits.len(),
{
    if digits.len() == 0 {
        0
    } else {
        16 * hex_value(digits.drop_last()) + hex_digit_value(digits.last())
    }
}

/// Every byte is a hexadecimal digit or a separator, and one at least is a
/// digit.
pub open spec fn is_hex_body(bytes: Seq<u8>) -> bool {
    &&& forall|at: int|
        0 <= at < bytes.len() ==> is_hex_digit(#[trigger] bytes[at]) || bytes[at] == SEPARATOR
    &&& without_separators(bytes).len() > 0
}

/// The number that the bytes of a string write: `0x`, then a body of digits
/// and separators, if a `u64` holds the number.
pub open spec fn hex_number(bytes: Seq<u8>) -> Option<u64> {
    if bytes.len() >= 2 && bytes[0] == 0x30 && bytes[1] == 0x78 && is_hex_body(bytes.skip(2))
        && hex_value(without_separators(bytes.skip(2))) <= u64::MAX {
        Some(hex_value(without_separators(bytes.skip(2))) as u64)
    } else {
        None
    }
}

/// The integer that a scalar gives: an unsigned integer is taken as it is, a
/// signed integer if it is not negative, a string if it writes a hexadecimal
/// number. Else the scalar is refused.
pub open spec fn decoded_integer(input: Scalar) -> Result<u64, DecodeError> {
    match input {
        Scalar::Unsigned(value) => Ok(value),
        Scalar::Signed(value) => if value >= 0 {
            Ok(value as u64)
        } else {
            Err(DecodeError::InvalidValue { unexpected: input })
        },
        Scalar::Str(string) => match hex_number(encode_utf8(string@)) {
            Some(value) => Ok(value),
            None => Err(DecodeError::InvalidValue { unexpected: input }),
        },
    }
}

/// The number of a sequence of digits is not negative.
pub proof fn lemma_hex_value_not_negative(digits: Seq<u8>)
    ensures
        hex_value(digits) >= 0,
    decreases digits.len(),
{
    if digits.len() > 0 {
        lemma_hex_value_not_negative(digits.drop_last());
    }
}

/// The number that the first `count` bytes of a body write is no greater
/// than the number that the whole body writes.
pub proof fn lemma_hex_value_grows(bytes: Seq<u8>, count: int)
    requires
        0 <= count <= bytes.len(),
    ensures
        hex_value(without_separators(bytes.take(count))) <= hex_value(without_separators(bytes)),
    decreases bytes.len() - count,
{
    if count == bytes.len() {
        assert(bytes.take(count) =~= bytes);
    } else {
        let next = bytes.take(count + 1);
        assert(next.drop_last() =~= bytes.take(count));
        let digits = without_separators(bytes.take(count));
        lemma_hex_value_not_negative(digits);
        if next.last() != SEPARATOR {
            assert(without_separators(next).drop_last() =~= digits);
        }
        lemma_hex_value_grows(bytes, count + 1);
    }
}

/// Reads the bytes of a string as a hexadecimal number.
pub fn parse_hex(bytes: &[u8]) -> (number: Option<u64>)
    ensures
        number == hex_number(bytes@),
{
    let length = bytes.len();
    if length < 2 || bytes[0] != 0x30 || bytes[1] != 0x78 {
        return None;
    }
    let ghost body = bytes@.skip(2);
    let mut value: u64 = 0;
    let mut digits: usize = 0;
    let mut at: usize = 2;
    proof {
        assert(body.take(0) =~= Seq::<u8>::empty());
    }
    while at < length
        invariant
            2 <= at <= length == bytes@.len(),
            body == bytes@.skip(2),
            forall|seen: int|
                0 <= seen < at - 2 ==> is_hex_digit(#[trigger] body[seen]) || body[seen]
                    == SEPARATOR,
            value == hex_value(without_separators(body.take(at - 2))),
            digits == without_separators(body.take(at - 2)).len(),
            digits <= at - 2,
        decreases length - at,
    {
        let byte: u8 = bytes[at];
        let ghost next = body.take(at - 1);
        proof {
            assert(next.drop_last() =~= body.take(at - 2));
            assert(next.last() == byte);
            if byte != SEPARATOR {
                assert(without_separators(next).drop_last() =~= without_separators(
                    body.take(at - 2),
                ));
            }
        }
        if byte != SEPARATOR {
            let digit: u64 = if 0x30 <= byte && byte <= 0x39 {
                (byte - 0x30) as u64
            } else if 0x61 <= byte && byte <= 0x66 {
                (byte - 0x61) as u64 + 10
            } else if 0x41 <= byte && byte <= 0x46 {
                (byte - 0x41) as u64 + 10
            } else {
                proof {
                    assert(!is_hex_digit(body[at - 2]) && body[at - 2] != SEPARATOR);
                }
                return None;
            };
            if value > (u64::MAX - digit) / 16 {
                proof {
                    lemma_hex_value_grows(body, at - 1);
                }
                return None;
            }
            value = value * 16 + digit;
            digits = digits + 1;
        }
        at = at + 1;
    }
    proof {
        assert(body.take(length - 2) =~= body);
    }
    if digits == 0 {
        None
    } else {
        Some(value)
    }
}

/// Takes an integer from a scalar: an integer that is not negative, or a
/// string that writes a hexadecimal number.
pub fn hex_str_or_unsigned(input: Scalar) -> (result: Result<u64, DecodeError>)
    ensures
        result == decoded_integer(input),
{
    match input {
        Scalar::Unsigned(value) => Ok(value),
        Scalar::Signed(value) => {
            if value >= 0 {
                Ok(value as u64)
            } else {
                Err(DecodeError::InvalidValue { unexpected: Scalar::Signed(value) })
            }
        },
        Scalar::Str(string) => {
            match parse_hex(string.as_str().as_bytes()) {
                Some(value) => Ok(value),
                None => Err(DecodeError::InvalidValue { unexpected: Scalar::Str(string) }),
            }
        },
    }
}

/// Takes the integer of a field that may be left out, and is there.
pub fn maybe_hex_str_or_unsigned(input: Scalar) -> (result: Result<Option<u64>, DecodeError>)
    ensures
        result == match decoded_integer(input) {
            Ok(value) => Ok::<Option<u64>, DecodeError>(Some(value)),
            Err(error) => Err::<Option<u64>, DecodeError>(error),
        },
{
    match hex_str_or_unsigned(input) {
        Ok(value) => Ok(Some(value)),
        Err(error) => Err(error),
    }
}

/// Lets a string through if all its characters are ASCII.
pub fn ascii_only_string(string: String) -> (result: Result<String, DecodeError>)
    ensures
        result == if vstd::utf8::is_ascii_chars(string@) {
            Ok::<String, DecodeError>(string)
        } else {
            Err::<String, DecodeError>(DecodeError::NonAscii { string })
        },
{
    if string.as_str().is_ascii() {
        Ok(string)
    } else {
        Err(DecodeError::NonAscii { string })
    }
}

} // verus!
