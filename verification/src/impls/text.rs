//! Text: the number of bytes of its UTF-8 form, then those bytes.

use crate::error::utf8_fault;
use crate::error::Fault;
use crate::error::MarshalError;
use crate::stream::MarshalIterator;
use crate::traits::Decoded;
use crate::traits::Marshal;
use crate::traits::UnMarshal;
use crate::traits::Wire;
use crate::utils::decode_bytes;
use crate::utils::lemma_skip_twice;
use crate::utils::readn_to_vec;
use vstd::prelude::*;
use vstd::utf8::decode_utf8;
use vstd::utf8::encode_utf8;
use vstd::utf8::valid_utf8;

verus! {

/// What `Utf8Error::error_len` gives for bytes that are not UTF-8: the length of the
/// first invalid sequence, or `None` where the bytes end inside a character.
pub uninterp spec fn utf8_error_len(bytes: Seq<u8>) -> Option<usize>;

/// `String::into_bytes` gives the UTF-8 form of the text.
pub assume_specification[ String::into_bytes ](text: String) -> (bytes: Vec<u8>)
    ensures
        bytes@ == encode_utf8(text@),
;

/// `String::from_utf8` accepts exactly the byte sequences that are UTF-8, and gives the
/// text that they spell. For the others it gives a `FromUtf8Error`, of which
/// `utf8_error().error_len()` is handed out: a value that the bytes alone decide.
#[verifier::external_body]
fn text_from_utf8(bytes: Vec<u8>) -> (res: Result<String, Option<usize>>)
    ensures
        res is Ok <==> valid_utf8(bytes@),
        res matches Ok(text) ==> text@ == decode_utf8(bytes@),
        res matches Err(len) ==> len == utf8_error_len(bytes@),
{
    match String::from_utf8(bytes) {
        Ok(text) => Ok(text),
        Err(e) => Err(e.utf8_error().error_len()),
    }
}

/// The text that `bytes` spell, or the fault where they are not UTF-8.
pub open spec fn text_of(bytes: Seq<u8>) -> Result<Seq<char>, Fault> {
    if valid_utf8(bytes) {
        Ok(decode_utf8(bytes))
    } else {
        Err(utf8_fault(utf8_error_len(bytes)))
    }
}

/// Turns bytes into the text that they spell.
pub fn text_from_bytes(bytes: Vec<u8>) -> (res: Result<String, MarshalError>)
    ensures
        match res {
            Ok(text) => text_of(bytes@) == Ok::<Seq<char>, Fault>(text@),
            Err(e) => text_of(bytes@) is Err && e.reports(text_of(bytes@)->Err_0),
        },
{
    match text_from_utf8(bytes) {
        Ok(text) => Ok(text),
        Err(len) => Err(MarshalError::from_utf8_error_len(len)),
    }
}

/// The bytes that stand for a text.
pub open spec fn text_encoding(m: Seq<char>) -> Seq<u8> {
    usize::encoding(encode_utf8(m).len() as usize) + encode_utf8(m)
}

impl Wire for String {
    type Model = Seq<char>;

    open spec fn model(&self) -> Seq<char> {
        self@
    }

    open spec fn representable(m: Seq<char>) -> bool {
        encode_utf8(m).len() <= usize::MAX
    }
}

impl Marshal for String {
    open spec fn obeys_marshal_spec() -> bool {
        true
    }

    open spec fn encoding(m: Seq<char>) -> Seq<u8> {
        text_encoding(m)
    }

    fn marshal(self) -> (out: MarshalIterator) {
        let d = self.into_bytes();
        d.len().marshal().chain(MarshalIterator::from_vec(d))
    }
}

impl<'a> Wire for &'a str {
    type Model = Seq<char>;

    open spec fn model(&self) -> Seq<char> {
        self@
    }

    open spec fn representable(m: Seq<char>) -> bool {
        encode_utf8(m).len() <= usize::MAX
    }
}

impl<'a> Marshal for &'a str {
    open spec fn obeys_marshal_spec() -> bool {
        true
    }

    open spec fn encoding(m: Seq<char>) -> Seq<u8> {
        text_encoding(m)
    }

    fn marshal(self) -> (out: MarshalIterator) {
        self.to_owned().marshal()
    }
}

impl UnMarshal for String {
    open spec fn obeys_unmarshal_spec() -> bool {
        true
    }

    open spec fn decode(input: Seq<u8>) -> Decoded<Seq<char>> {
        let len = usize::decode(input);
        match len.outcome {
            Ok(n) => decode_bytes(input.skip(len.used as int), n as nat).and_then(
                |bytes: Seq<u8>| text_of(bytes),
            ).after(len.used),
            Err(fault) => Decoded { outcome: Err(fault), used: len.used },
        }
    }

    fn unmarshal<I: Iterator<Item = u8>>(data: &mut I) -> (res: Result<Self, MarshalError>) {
        proof {
            lemma_skip_twice();
        }
        let len = match usize::unmarshal(data) {
            Ok(n) => n,
            Err(e) => {
                return Err(e);
            },
        };
        let d = match readn_to_vec(data, len) {
            Ok(v) => v,
            Err(count) => {
                return Err(MarshalError::InvalidSizedDecode(count));
            },
        };
        text_from_bytes(d)
    }
}

} // verus!
