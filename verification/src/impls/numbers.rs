//! The fixed-width numbers: each is its bytes, lowest first.

use crate::endian::from_raw;
use crate::endian::from_twos_complement;
use crate::endian::le_bytes;
use crate::endian::le_decode;
use crate::endian::le_encode;
use crate::endian::le_value;
use crate::endian::lemma_pow256_values;
use crate::endian::pow256;
use crate::endian::to_raw;
use crate::endian::twos_complement;
use crate::error::MarshalError;
use crate::stream::MarshalIterator;
use crate::traits::read_as;
use crate::traits::Decoded;
use crate::traits::Marshal;
use crate::traits::UnMarshal;
use crate::traits::Wire;
use crate::utils::decode_bytes;
use crate::utils::readn_to_vec;
use vstd::prelude::*;
use vstd::std_specs::iter::IteratorSpec;

verus! {

/// What the bytes `input` decode to as an unsigned number of `width` bytes: the number
/// that the first `width` bytes hold, or, where fewer are there, the fault that counts
/// them.
pub open spec fn decode_fixed(input: Seq<u8>, width: nat) -> Decoded<nat> {
    decode_bytes(input, width).map(|bytes: Seq<u8>| le_value(bytes))
}

/// The result of a read of a number, as a natural number.
pub open spec fn as_nat(res: Result<u128, MarshalError>) -> Result<nat, MarshalError> {
    match res {
        Ok(v) => Ok(v as nat),
        Err(e) => Err(e),
    }
}

/// Reads an unsigned number of `width` bytes.
pub(crate) fn read_fixed<I: Iterator<Item = u8>>(data: &mut I, width: usize) -> (res: Result<
    u128,
    MarshalError,
>)
    requires
        width <= 16,
    ensures
        (*old(data)).obeys_prophetic_iter_laws() ==> {
            &&& (*final(data)).obeys_prophetic_iter_laws()
            &&& read_as(
                decode_fixed((*old(data)).remaining(), width as nat),
                (*old(data)).remaining(),
                (*final(data)).remaining(),
                as_nat(res),
            )
        },
        res matches Ok(v) ==> v < pow256(width as nat),
{
    match readn_to_vec(data, width) {
        Ok(bytes) => Ok(le_decode(&bytes)),
        Err(count) => Err(MarshalError::InvalidSizedDecode(count)),
    }
}

impl Wire for u8 {
    type Model = u8;

    open spec fn model(&self) -> u8 {
        *self
    }
}

impl Marshal for u8 {
    open spec fn obeys_marshal_spec() -> bool {
        true
    }

    open spec fn encoding(m: u8) -> Seq<u8> {
        le_bytes(m as nat, 1)
    }

    fn marshal(self) -> (out: MarshalIterator) {
        MarshalIterator::from_vec(le_encode(self as u128, 1))
    }
}

impl UnMarshal for u8 {
    open spec fn obeys_unmarshal_spec() -> bool {
        true
    }

    open spec fn decode(input: Seq<u8>) -> Decoded<u8> {
        decode_fixed(input, 1).map(|n: nat| n as u8)
    }

    fn unmarshal<I: Iterator<Item = u8>>(data: &mut I) -> (res: Result<Self, MarshalError>) {
        proof {
            lemma_pow256_values();
        }
        match read_fixed(data, 1) {
            Ok(v) => Ok(v as u8),
            Err(e) => Err(e),
        }
    }
}

impl Wire for u16 {
    type Model = u16;

    open spec fn model(&self) -> u16 {
        *self
    }
}

impl Marshal for u16 {
    open spec fn obeys_marshal_spec() -> bool {
        true
    }

    open spec fn encoding(m: u16) -> Seq<u8> {
        le_bytes(m as nat, 2)
    }

    fn marshal(self) -> (out: MarshalIterator) {
        MarshalIterator::from_vec(le_encode(self as u128, 2))
    }
}

impl UnMarshal for u16 {
    open spec fn obeys_unmarshal_spec() -> bool {
        true
    }

    open spec fn decode(input: Seq<u8>) -> Decoded<u16> {
        decode_fixed(input, 2).map(|n: nat| n as u16)
    }

    fn unmarshal<I: Iterator<Item = u8>>(data: &mut I) -> (res: Result<Self, MarshalError>) {
        proof {
            lemma_pow256_values();
        }
        match read_fixed(data, 2) {
            Ok(v) => Ok(v as u16),
            Err(e) => Err(e),
        }
    }
}

impl Wire for u32 {
    type Model = u32;

    open spec fn model(&self) -> u32 {
        *self
    }
}

impl Marshal for u32 {
    open spec fn obeys_marshal_spec() -> bool {
        true
    }

    open spec fn encoding(m: u32) -> Seq<u8> {
        le_bytes(m as nat, 4)
    }

    fn marshal(self) -> (out: MarshalIterator) {
        MarshalIterator::from_vec(le_encode(self as u128, 4))
    }
}

impl UnMarshal for u32 {
    open spec fn obeys_unmarshal_spec() -> bool {
        true
    }

    open spec fn decode(input: Seq<u8>) -> Decoded<u32> {
        decode_fixed(input, 4).map(|n: nat| n as u32)
    }

    fn unmarshal<I: Iterator<Item = u8>>(data: &mut I) -> (res: Result<Self, MarshalError>) {
        proof {
            lemma_pow256_values();
        }
        match read_fixed(data, 4) {
            Ok(v) => Ok(v as u32),
            Err(e) => Err(e),
        }
    }
}

impl Wire for u64 {
    type Model = u64;

    open spec fn model(&self) -> u64 {
        *self
    }
}

impl Marshal for u64 {
    open spec fn obeys_marshal_spec() -> bool {
        true
    }

    open spec fn encoding(m: u64) -> Seq<u8> {
        le_bytes(m as nat, 8)
    }

    fn marshal(self) -> (out: MarshalIterator) {
        MarshalIterator::from_vec(le_encode(self as u128, 8))
    }
}

impl UnMarshal for u64 {
    open spec fn obeys_unmarshal_spec() -> bool {
        true
    }

    open spec fn decode(input: Seq<u8>) -> Decoded<u64> {
        decode_fixed(input, 8).map(|n: nat| n as u64)
    }

    fn unmarshal<I: Iterator<Item = u8>>(data: &mut I) -> (res: Result<Self, MarshalError>) {
        proof {
            lemma_pow256_values();
        }
        match read_fixed(data, 8) {
            Ok(v) => Ok(v as u64),
            Err(e) => Err(e),
        }
    }
}

impl Wire for u128 {
    type Model = u128;

    open spec fn model(&self) -> u128 {
        *self
    }
}

impl Marshal for u128 {
    open spec fn obeys_marshal_spec() -> bool {
        true
    }

    open spec fn encoding(m: u128) -> Seq<u8> {
        le_bytes(m as nat, 16)
    }

    fn marshal(self) -> (out: MarshalIterator) {
        MarshalIterator::from_vec(le_encode(self as u128, 16))
    }
}

impl UnMarshal for u128 {
    open spec fn obeys_unmarshal_spec() -> bool {
        true
    }

    open spec fn decode(input: Seq<u8>) -> Decoded<u128> {
        decode_fixed(input, 16).map(|n: nat| n as u128)
    }

    fn unmarshal<I: Iterator<Item = u8>>(data: &mut I) -> (res: Result<Self, MarshalError>) {
        proof {
            lemma_pow256_values();
        }
        match read_fixed(data, 16) {
            Ok(v) => Ok(v as u128),
            Err(e) => Err(e),
        }
    }
}

impl Wire for i8 {
    type Model = i8;

    open spec fn model(&self) -> i8 {
        *self
    }
}

impl Marshal for i8 {
    open spec fn obeys_marshal_spec() -> bool {
        true
    }

    open spec fn encoding(m: i8) -> Seq<u8> {
        le_bytes(twos_complement(m as int, 1), 1)
    }

    fn marshal(self) -> (out: MarshalIterator) {
        proof {
            lemma_pow256_values();
        }
        MarshalIterator::from_vec(le_encode(to_raw(self as i128, 1), 1))
    }
}

impl UnMarshal for i8 {
    open spec fn obeys_unmarshal_spec() -> bool {
        true
    }

    open spec fn decode(input: Seq<u8>) -> Decoded<i8> {
        decode_fixed(input, 1).map(|n: nat| from_twos_complement(n, 1) as i8)
    }

    fn unmarshal<I: Iterator<Item = u8>>(data: &mut I) -> (res: Result<Self, MarshalError>) {
        proof {
            lemma_pow256_values();
        }
        match read_fixed(data, 1) {
            Ok(v) => Ok(from_raw(v, 1) as i8),
            Err(e) => Err(e),
        }
    }
}

impl Wire for i16 {
    type Model = i16;

    open spec fn model(&self) -> i16 {
        *self
    }
}

impl Marshal for i16 {
    open spec fn obeys_marshal_spec() -> bool {
        true
    }

    open spec fn encoding(m: i16) -> Seq<u8> {
        le_bytes(twos_complement(m as int, 2), 2)
    }

    fn marshal(self) -> (out: MarshalIterator) {
        proof {
            lemma_pow256_values();
        }
        MarshalIterator::from_vec(le_encode(to_raw(self as i128, 2), 2))
    }
}

impl UnMarshal for i16 {
    open spec fn obeys_unmarshal_spec() -> bool {
        true
    }

    open spec fn decode(input: Seq<u8>) -> Decoded<i16> {
        decode_fixed(input, 2).map(|n: nat| from_twos_complement(n, 2) as i16)
    }

    fn unmarshal<I: Iterator<Item = u8>>(data: &mut I) -> (res: Result<Self, MarshalError>) {
        proof {
            lemma_pow256_values();
        }
        match read_fixed(data, 2) {
            Ok(v) => Ok(from_raw(v, 2) as i16),
            Err(e) => Err(e),
        }
    }
}

impl Wire for i32 {
    type Model = i32;

    open spec fn model(&self) -> i32 {
        *self
    }
}

impl Marshal for i32 {
    open spec fn obeys_marshal_spec() -> bool {
        true
    }

    open spec fn encoding(m: i32) -> Seq<u8> {
        le_bytes(twos_complement(m as int, 4), 4)
    }

    fn marshal(self) -> (out: MarshalIterator) {
        proof {
            lemma_pow256_values();
        }
        MarshalIterator::from_vec(le_encode(to_raw(self as i128, 4), 4))
    }
}

impl UnMarshal for i32 {
    open spec fn obeys_unmarshal_spec() -> bool {
        true
    }

    open spec fn decode(input: Seq<u8>) -> Decoded<i32> {
        decode_fixed(input, 4).map(|n: nat| from_twos_complement(n, 4) as i32)
    }

    fn unmarshal<I: Iterator<Item = u8>>(data: &mut I) -> (res: Result<Self, MarshalError>) {
        proof {
            lemma_pow256_values();
        }
        match read_fixed(data, 4) {
            Ok(v) => Ok(from_raw(v, 4) as i32),
            Err(e) => Err(e),
        }
    }
}

impl Wire for i64 {
    type Model = i64;

    open spec fn model(&self) -> i64 {
        *self
    }
}

impl Marshal for i64 {
    open spec fn obeys_marshal_spec() -> bool {
        true
    }

    open spec fn encoding(m: i64) -> Seq<u8> {
        le_bytes(twos_complement(m as int, 8), 8)
    }

    fn marshal(self) -> (out: MarshalIterator) {
        proof {
            lemma_pow256_values();
        }
        MarshalIterator::from_vec(le_encode(to_raw(self as i128, 8), 8))
    }
}

impl UnMarshal for i64 {
    open spec fn obeys_unmarshal_spec() -> bool {
        true
    }

    open spec fn decode(input: Seq<u8>) -> Decoded<i64> {
        decode_fixed(input, 8).map(|n: nat| from_twos_complement(n, 8) as i64)
    }

    fn unmarshal<I: Iterator<Item = u8>>(data: &mut I) -> (res: Result<Self, MarshalError>) {
        proof {
            lemma_pow256_values();
        }
        match read_fixed(data, 8) {
            Ok(v) => Ok(from_raw(v, 8) as i64),
            Err(e) => Err(e),
        }
    }
}

impl Wire for i128 {
    type Model = i128;

    open spec fn model(&self) -> i128 {
        *self
    }
}

impl Marshal for i128 {
    open spec fn obeys_marshal_spec() -> bool {
        true
    }

    open spec fn encoding(m: i128) -> Seq<u8> {
        le_bytes(twos_complement(m as int, 16), 16)
    }

    fn marshal(self) -> (out: MarshalIterator) {
        proof {
            lemma_pow256_values();
        }
        MarshalIterator::from_vec(le_encode(to_raw(self as i128, 16), 16))
    }
}

impl UnMarshal for i128 {
    open spec fn obeys_unmarshal_spec() -> bool {
        true
    }

    open spec fn decode(input: Seq<u8>) -> Decoded<i128> {
        decode_fixed(input, 16).map(|n: nat| from_twos_complement(n, 16) as i128)
    }

    fn unmarshal<I: Iterator<Item = u8>>(data: &mut I) -> (res: Result<Self, MarshalError>) {
        proof {
            lemma_pow256_values();
        }
        match read_fixed(data, 16) {
            Ok(v) => Ok(from_raw(v, 16) as i128),
            Err(e) => Err(e),
        }
    }
}

} // verus!
