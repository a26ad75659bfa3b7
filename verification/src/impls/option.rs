//! Optional values: a tag byte, then the value where there is one.

use crate::error::Fault;
use crate::error::MarshalError;
use crate::stream::ByteStream;
use crate::stream::Either;
use crate::stream::MarshalIterator;
use crate::traits::Decoded;
use crate::traits::Marshal;
use crate::traits::UnMarshal;
use crate::traits::Wire;
use crate::utils::lemma_skip_twice;
use vstd::prelude::*;

verus! {

impl<T: Wire> Wire for Option<T> {
    type Model = Option<T::Model>;

    open spec fn model(&self) -> Option<T::Model> {
        match self {
            Some(v) => Some(v.model()),
            None => None,
        }
    }

    open spec fn representable(m: Option<T::Model>) -> bool {
        m matches Some(x) ==> T::representable(x)
    }
}

/// An absent value is the byte 0; a present one is the byte 1 and then the value.
impl<T: Marshal> Marshal for Option<T> {
    open spec fn obeys_marshal_spec() -> bool {
        T::obeys_marshal_spec()
    }

    open spec fn encoding(m: Option<T::Model>) -> Seq<u8> {
        match m {
            Some(x) => u8::encoding(1) + T::encoding(x),
            None => u8::encoding(0),
        }
    }

    fn marshal(self) -> (out: MarshalIterator) {
        match self {
            Some(v) => Either::<MarshalIterator, MarshalIterator>::Left(
                1u8.marshal().chain(v.marshal()),
            ).boxed(),
            None => {
                let tag = 0u8.marshal().chain(MarshalIterator::empty());
                assert(tag.pending() =~= u8::encoding(0));
                Either::<MarshalIterator, MarshalIterator>::Right(tag).boxed()
            },
        }
    }
}

/// What a presence tag and the bytes behind it decode to.
pub open spec fn decode_tagged<M>(tag: u8, inner: Decoded<M>) -> Decoded<Option<M>> {
    if tag == 0 {
        Decoded { outcome: Ok(None), used: 1 }
    } else if tag == 1 {
        inner.map(|m: M| Some(m)).after(1)
    } else {
        Decoded { outcome: Err(Fault::OptionTag(tag)), used: 1 }
    }
}

impl<T: UnMarshal> UnMarshal for Option<T> {
    open spec fn obeys_unmarshal_spec() -> bool {
        T::obeys_unmarshal_spec()
    }

    open spec fn decode(input: Seq<u8>) -> Decoded<Option<T::Model>> {
        let tag = u8::decode(input);
        match tag.outcome {
            Ok(b) => decode_tagged(b, T::decode(input.skip(1))),
            Err(fault) => Decoded { outcome: Err(fault), used: tag.used },
        }
    }

    fn unmarshal<I: Iterator<Item = u8>>(data: &mut I) -> (res: Result<Self, MarshalError>) {
        let variant = match u8::unmarshal(data) {
            Ok(b) => b,
            Err(e) => {
                return Err(e);
            },
        };
        if variant == 0 {
            Ok(None)
        } else if variant == 1 {
            proof {
                lemma_skip_twice();
            }
            match T::unmarshal(data) {
                Ok(v) => Ok(Some(v)),
                Err(e) => Err(e),
            }
        } else {
            Err(MarshalError::option_tag(variant))
        }
    }
}

} // verus!
