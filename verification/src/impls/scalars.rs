//! The platform-width integers, booleans and characters.

use crate::endian::from_raw;
use crate::endian::from_twos_complement;
use crate::endian::le_bytes;
use crate::endian::le_encode;
use crate::endian::lemma_pow256_values;
use crate::endian::to_raw;
use crate::endian::twos_complement;
use crate::error::Fault;
use crate::error::MarshalError;
use crate::impls::numbers::decode_fixed;
use crate::impls::numbers::read_fixed;
use crate::stream::MarshalIterator;
use crate::traits::Decoded;
use crate::traits::Marshal;
use crate::traits::UnMarshal;
use crate::traits::Wire;
use vstd::prelude::*;
use vstd::utf8::is_scalar;

verus! {

/// `char::from_u32` gives the character with the code point `i` where `i` is a Unicode
/// scalar value, and `None` for every other number.
pub assume_specification[ char::from_u32 ](i: u32) -> (c: Option<char>)
    ensures
        is_scalar(i) ==> c == Some(i as char),
        !is_scalar(i) ==> c is None,
;

impl Wire for usize {
    type Model = usize;

    open spec fn model(&self) -> usize {
        *self
    }
}

/// A `usize` travels as a number of eight bytes, whatever the width of the platform.
impl Marshal for usize {
    open spec fn obeys_marshal_spec() -> bool {
        true
    }

    open spec fn encoding(m: usize) -> Seq<u8> {
        le_bytes(m as nat, 8)
    }

    fn marshal(self) -> (out: MarshalIterator) {
        MarshalIterator::from_vec(le_encode(self as u128, 8))
    }
}

impl UnMarshal for usize {
    open spec fn obeys_unmarshal_spec() -> bool {
        true
    }

    open spec fn decode(input: Seq<u8>) -> Decoded<usize> {
        decode_fixed(input, 8).and_then(
            |n: nat|
                if n <= usize::MAX {
                    Ok(n as usize)
                } else {
                    Err(Fault::InvalidDecode)
                },
        )
    }

    fn unmarshal<I: Iterator<Item = u8>>(data: &mut I) -> (res: Result<Self, MarshalError>) {
        match read_fixed(data, 8) {
            Ok(v) => {
                if v <= usize::MAX as u128 {
                    Ok(v as usize)
                } else {
                    Err(MarshalError::InvalidDecode)
                }
            },
            Err(e) => Err(e),
        }
    }
}

impl Wire for isize {
    type Model = isize;

    open spec fn model(&self) -> isize {
        *self
    }
}

/// An `isize` travels as a signed number of eight bytes, whatever the width of the
/// platform.
impl Marshal for isize {
    open spec fn obeys_marshal_spec() -> bool {
        true
    }

    open spec fn encoding(m: isize) -> Seq<u8> {
        le_bytes(twos_complement(m as int, 8), 8)
    }

    fn marshal(self) -> (out: MarshalIterator) {
        proof {
            lemma_pow256_values();
        }
        MarshalIterator::from_vec(le_encode(to_raw(self as i128, 8), 8))
    }
}

impl UnMarshal for isize {
    open spec fn obeys_unmarshal_spec() -> bool {
        true
    }

    open spec fn decode(input: Seq<u8>) -> Decoded<isize> {
        decode_fixed(input, 8).and_then(
            |n: nat|
                if isize::MIN <= from_twos_complement(n, 8) <= isize::MAX {
                    Ok(from_twos_complement(n, 8) as isize)
                } else {
                    Err(Fault::InvalidDecode)
                },
        )
    }

    fn unmarshal<I: Iterator<Item = u8>>(data: &mut I) -> (res: Result<Self, MarshalError>) {
        match read_fixed(data, 8) {
            Ok(v) => {
                let wide = from_raw(v, 8);
                if isize::MIN as i128 <= wide && wide <= isize::MAX as i128 {
                    Ok(wide as isize)
                } else {
                    Err(MarshalError::InvalidDecode)
                }
            },
            Err(e) => Err(e),
        }
    }
}

/// The byte that stands for a boolean.
pub open spec fn bool_byte(m: bool) -> u8 {
    if m {
        1
    } else {
        0
    }
}

/// The boolean for which a byte stands, or the fault that names the byte.
pub open spec fn bool_of_byte(b: u8) -> Result<bool, Fault> {
    if b == 0 {
        Ok(false)
    } else if b == 1 {
        Ok(true)
    } else {
        Err(Fault::BoolTag(b))
    }
}

impl Wire for bool {
    type Model = bool;

    open spec fn model(&self) -> bool {
        *self
    }
}

impl Marshal for bool {
    open spec fn obeys_marshal_spec() -> bool {
        true
    }

    open spec fn encoding(m: bool) -> Seq<u8> {
        u8::encoding(bool_byte(m))
    }

    fn marshal(self) -> (out: MarshalIterator) {
        let d: u8 = if self {
            1
        } else {
            0
        };
        d.marshal()
    }
}

impl UnMarshal for bool {
    open spec fn obeys_unmarshal_spec() -> bool {
        true
    }

    open spec fn decode(input: Seq<u8>) -> Decoded<bool> {
        u8::decode(input).and_then(|b: u8| bool_of_byte(b))
    }

    fn unmarshal<I: Iterator<Item = u8>>(data: &mut I) -> (res: Result<Self, MarshalError>) {
        match u8::unmarshal(data) {
            Ok(b) => {
                if b == 0 {
                    Ok(false)
                } else if b == 1 {
                    Ok(true)
                } else {
                    Err(MarshalError::bool_tag(b))
                }
            },
            Err(e) => Err(e),
        }
    }
}

/// The character with the code point `n`, or the fault where there is none.
pub open spec fn char_of_code(n: nat) -> Result<char, Fault> {
    if n <= u32::MAX && is_scalar(n as u32) {
        Ok((n as u32) as char)
    } else {
        Err(Fault::InvalidDecode)
    }
}

impl Wire for char {
    type Model = char;

    open spec fn model(&self) -> char {
        *self
    }
}

/// A character travels as its code point, a number of four bytes.
impl Marshal for char {
    open spec fn obeys_marshal_spec() -> bool {
        true
    }

    open spec fn encoding(m: char) -> Seq<u8> {
        le_bytes(m as u32 as nat, 4)
    }

    fn marshal(self) -> (out: MarshalIterator) {
        MarshalIterator::from_vec(le_encode(self as u32 as u128, 4))
    }
}

impl UnMarshal for char {
    open spec fn obeys_unmarshal_spec() -> bool {
        true
    }

    open spec fn decode(input: Seq<u8>) -> Decoded<char> {
        decode_fixed(input, 4).and_then(|n: nat| char_of_code(n))
    }

    fn unmarshal<I: Iterator<Item = u8>>(data: &mut I) -> (res: Result<Self, MarshalError>) {
        proof {
            lemma_pow256_values();
        }
        match read_fixed(data, 4) {
            Ok(v) => match char::from_u32(v as u32) {
                Some(c) => Ok(c),
                None => Err(MarshalError::InvalidDecode),
            },
            Err(e) => Err(e),
        }
    }
}

} // verus!
