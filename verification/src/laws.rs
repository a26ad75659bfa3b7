//! What holds of the codec as a whole: decoding undoes encoding, and a fixed-width value
//! cut short is reported with the number of bytes that were there.

pub mod containers;
pub mod map;
pub mod numbers;
pub mod tuples;

use crate::composite::decode_variant_index;
use crate::composite::variant_encoding;
use crate::error::Fault;
use crate::error::MarshalError;
use crate::laws::numbers::lemma_u8_round_trips;
use crate::traits::Decoded;
use crate::traits::Marshal;
use crate::traits::UnMarshal;
use vstd::prelude::*;

verus! {

/// Whether decoding undoes encoding for the type `T`: the encoding of every model that
/// can be, with whatever bytes behind it, decodes to that model, and the decoder takes the
/// encoding and nothing of what follows.
pub open spec fn round_trips<T: Marshal + UnMarshal>() -> bool {
    forall|m: T::Model, rest: Seq<u8>|
        T::representable(m) ==> #[trigger] T::decode(T::encoding(m) + rest) == (Decoded {
            outcome: Ok(m),
            used: T::encoding(m).len(),
        })
}

/// Whether a value of `T` that is cut short is reported as such: every input shorter
/// than `width` bytes decodes to the fault that counts its bytes, and the decoder takes
/// them all.
pub open spec fn reports_truncation<T: UnMarshal>(width: nat) -> bool {
    forall|input: Seq<u8>|
        input.len() < width ==> #[trigger] T::decode(input) == (Decoded::<T::Model> {
            outcome: Err(Fault::InvalidSizedDecode(input.len() as usize)),
            used: input.len(),
        })
}

/// The index of a variant that the enum has, with whatever bytes behind it, decodes to
/// the index, and the decoder takes the one byte of it.
pub proof fn lemma_variant_index_round_trips(
    index: u8,
    payload: Seq<u8>,
    rest: Seq<u8>,
    variants: usize,
)
    requires
        index < variants,
    ensures
        decode_variant_index(variant_encoding(index, payload) + rest, variants) == (Decoded {
            outcome: Ok(index),
            used: 1,
        }),
{
    lemma_u8_round_trips();
    assert(variant_encoding(index, payload) + rest =~= u8::encoding(index) + (payload + rest));
    assert(u8::decode(u8::encoding(index) + (payload + rest)).used == 1);
}

/// The reserved error reports no fault: no decoder that keeps to its `decode` returns
/// it.
pub proof fn lemma_reserved_error_reports_nothing()
    ensures
        forall|fault: Fault| !(#[trigger] MarshalError::EarlyStreamEnd.reports(fault)),
{
}

} // verus!
