//! Why a decode failed.

use vstd::prelude::*;
use vstd::string::StringExecFns;

verus! {

/// The error that a failed decode returns.
///
/// `EarlyStreamEnd` is reserved: no decoder of this crate returns it.
#[derive(Debug, Clone)]
pub enum MarshalError {
    /// Reserved.
    EarlyStreamEnd,
    /// The bytes were read, but the number they hold does not fit the target type, or
    /// the text ends in the middle of a character.
    InvalidDecode,
    /// Fewer bytes than required were left; the field is the number that were read.
    /// Also an invalid byte sequence inside a text; the field is then its length.
    InvalidSizedDecode(usize),
    /// The bytes were well formed but do not stand for a value: a tag out of range, or a
    /// key that a map holds already.
    InvalidData(String),
}

/// The failures of decoding, as the contracts name them: each says what was wrong with
/// the bytes.
pub enum Fault {
    /// The bytes hold a number that does not fit the target type, or a text that ends in
    /// the middle of a character.
    InvalidDecode,
    /// Fewer bytes than required were left, this many; or a text holds an invalid byte
    /// sequence of this length.
    InvalidSizedDecode(usize),
    /// A boolean was read from this byte, which is neither 0 nor 1.
    BoolTag(u8),
    /// The presence tag of an optional value was this byte, which is neither 0 nor 1.
    OptionTag(u8),
    /// The variant index of an enum was this byte, which names no variant.
    VariantTag(u8),
    /// A map held the same key twice.
    DuplicateKey,
}

/// The digit `d` as a character.
pub open spec fn digit_char(d: nat) -> char {
    if d == 0 {
        '0'
    } else if d == 1 {
        '1'
    } else if d == 2 {
        '2'
    } else if d == 3 {
        '3'
    } else if d == 4 {
        '4'
    } else if d == 5 {
        '5'
    } else if d == 6 {
        '6'
    } else if d == 7 {
        '7'
    } else if d == 8 {
        '8'
    } else {
        '9'
    }
}

/// The decimal numeral of `n`, without leading zeros.
pub open spec fn decimal(n: nat) -> Seq<char>
    decreases n,
{
    if n < 10 {
        seq![digit_char(n)]
    } else {
        decimal(n / 10).push(digit_char(n % 10))
    }
}

/// The message of the error for a boolean read from `byte`.
pub open spec fn bool_tag_message(byte: u8) -> Seq<char> {
    "Found '"@ + decimal(byte as nat)
        + "' when unmarshalling a bool. Should be either 0 (false) or 1 (true)"@
}

/// The message of the error for a presence tag `byte`.
pub open spec fn option_tag_message(byte: u8) -> Seq<char> {
    "Found '"@ + decimal(byte as nat)
        + "' when unmarshalling the option. Should be either 0 or 1"@
}

/// The message of the error for a variant index `byte`.
pub open spec fn variant_tag_message(byte: u8) -> Seq<char> {
    "Invalid enum varient: "@ + decimal(byte as nat)
}

/// What the message of the error for a key that comes twice begins with; the value that
/// the key had follows.
pub open spec fn duplicate_key_prefix() -> Seq<char> {
    "Duplicate Key while decoding HashMap: "@
}

impl MarshalError {
    /// Whether this error is the one that a decoder returns for `fault`.
    pub open spec fn reports(&self, fault: Fault) -> bool {
        match fault {
            Fault::InvalidDecode => *self is InvalidDecode,
            Fault::InvalidSizedDecode(n) => *self == MarshalError::InvalidSizedDecode(n),
            Fault::BoolTag(b) => *self is InvalidData && self->InvalidData_0@ == bool_tag_message(b),
            Fault::OptionTag(b) => *self is InvalidData && self->InvalidData_0@
                == option_tag_message(b),
            Fault::VariantTag(b) => *self is InvalidData && self->InvalidData_0@
                == variant_tag_message(b),
            Fault::DuplicateKey => *self is InvalidData && duplicate_key_prefix().is_prefix_of(
                self->InvalidData_0@,
            ),
        }
    }

    /// The error for a text that is not UTF-8: `error_len` is the length of the invalid
    /// byte sequence, or `None` where the text ends inside a character.
    pub fn from_utf8_error_len(error_len: Option<usize>) -> (err: Self)
        ensures
            err.reports(utf8_fault(error_len)),
    {
        match error_len {
            Some(l) => MarshalError::InvalidSizedDecode(l),
            None => MarshalError::InvalidDecode,
        }
    }

    /// The error for a boolean read from `byte`.
    pub fn bool_tag(byte: u8) -> (err: Self)
        ensures
            err.reports(Fault::BoolTag(byte)),
    {
        let msg = String::from_str("Found '").concat(decimal_text(byte).as_str()).concat(
            "' when unmarshalling a bool. Should be either 0 (false) or 1 (true)",
        );
        MarshalError::InvalidData(msg)
    }

    /// The error for a presence tag `byte`.
    pub fn option_tag(byte: u8) -> (err: Self)
        ensures
            err.reports(Fault::OptionTag(byte)),
    {
        let msg = String::from_str("Found '").concat(decimal_text(byte).as_str()).concat(
            "' when unmarshalling the option. Should be either 0 or 1",
        );
        MarshalError::InvalidData(msg)
    }

    /// The error for a variant index `byte`.
    pub fn variant_tag(byte: u8) -> (err: Self)
        ensures
            err.reports(Fault::VariantTag(byte)),
    {
        let msg = String::from_str("Invalid enum varient: ").concat(decimal_text(byte).as_str());
        MarshalError::InvalidData(msg)
    }
}

/// The fault for a text that is not UTF-8, by the length of the invalid sequence.
pub open spec fn utf8_fault(error_len: Option<usize>) -> Fault {
    match error_len {
        Some(l) => Fault::InvalidSizedDecode(l),
        None => Fault::InvalidDecode,
    }
}

fn digit_text(d: u8) -> (out: &'static str)
    requires
        d < 10,
    ensures
        out@ == seq![digit_char(d as nat)],
{
    proof {
        reveal_strlit("0");
        reveal_strlit("1");
        reveal_strlit("2");
        reveal_strlit("3");
        reveal_strlit("4");
        reveal_strlit("5");
        reveal_strlit("6");
        reveal_strlit("7");
        reveal_strlit("8");
        reveal_strlit("9");
    }
    let out = if d == 0 {
        "0"
    } else if d == 1 {
        "1"
    } else if d == 2 {
        "2"
    } else if d == 3 {
        "3"
    } else if d == 4 {
        "4"
    } else if d == 5 {
        "5"
    } else if d == 6 {
        "6"
    } else if d == 7 {
        "7"
    } else if d == 8 {
        "8"
    } else {
        "9"
    };
    assert(out@ =~= seq![digit_char(d as nat)]);
    out
}

/// The decimal numeral of a byte.
pub fn decimal_text(byte: u8) -> (out: String)
    ensures
        out@ == decimal(byte as nat),
{
    let ones = byte % 10;
    let tens = (byte / 10) % 10;
    let hundreds = byte / 100;
    proof {
        reveal_with_fuel(decimal, 3);
    }
    if byte < 10 {
        String::from_str(digit_text(ones))
    } else if byte < 100 {
        let out = String::from_str(digit_text(tens)).concat(digit_text(ones));
        assert(out@ =~= decimal(byte as nat));
        out
    } else {
        let out = String::from_str(digit_text(hundreds)).concat(digit_text(tens)).concat(
            digit_text(ones),
        );
        assert(out@ =~= decimal(byte as nat));
        out
    }
}

} // verus!
