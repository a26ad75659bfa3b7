//! The laws of the containers: optional values, lists and text.

use crate::error::Fault;
use crate::impls::list::decode_all;
use crate::impls::list::encode_all;
use crate::impls::text::text_encoding;
use crate::laws::numbers::lemma_u8_round_trips;
use crate::laws::numbers::lemma_usize_round_trips;
use crate::laws::round_trips;
use crate::traits::Decoded;
use crate::traits::Marshal;
use crate::traits::UnMarshal;
use crate::traits::Wire;
use vstd::prelude::*;
use vstd::utf8::encode_utf8;
use vstd::utf8::encode_utf8_decode_utf8;
use vstd::utf8::encode_utf8_valid_utf8;

verus! {

/// Decoding undoes encoding for optional values of a type for which it does.
pub proof fn lemma_option_round_trips<T: Marshal + UnMarshal>()
    requires
        round_trips::<T>(),
    ensures
        round_trips::<Option<T>>(),
{
    assert forall|m: Option<T::Model>, rest: Seq<u8>|
        Option::<T>::representable(m) implies #[trigger] Option::<T>::decode(
        Option::<T>::encoding(m) + rest,
    ) == (Decoded { outcome: Ok(m), used: Option::<T>::encoding(m).len() }) by {
        lemma_u8_round_trips();
        let input = Option::<T>::encoding(m) + rest;
        match m {
            Some(x) => {
                let behind = T::encoding(x) + rest;
                assert(input =~= u8::encoding(1) + behind);
                assert(u8::decode(u8::encoding(1) + behind).used == 1);
                assert(input.skip(1) =~= behind);
                assert(T::decode(behind).outcome == Ok::<T::Model, Fault>(x));
            },
            None => {
                assert(u8::decode(u8::encoding(0) + rest).used == 1);
            },
        }
    }
}

/// The encodings of some models in a row, with whatever bytes behind them, decode to the
/// models.
pub proof fn lemma_items_round_trip<T: Marshal + UnMarshal>(models: Seq<T::Model>, rest: Seq<u8>)
    requires
        round_trips::<T>(),
        forall|i: int| 0 <= i < models.len() ==> T::representable(#[trigger] models[i]),
    ensures
        decode_all::<T>(encode_all::<T>(models) + rest, models.len()) == (Decoded {
            outcome: Ok(models),
            used: encode_all::<T>(models).len(),
        }),
    decreases models.len(),
{
    if models.len() > 0 {
        let first = T::encoding(models[0]);
        let others = models.drop_first();
        let behind = encode_all::<T>(others) + rest;
        let input = encode_all::<T>(models) + rest;
        assert(input =~= first + behind);
        assert(T::representable(models[0]));
        assert(T::decode(first + behind) == (Decoded {
            outcome: Ok(models[0]),
            used: first.len(),
        }));
        assert(input.skip(first.len() as int) =~= behind);
        assert forall|i: int| 0 <= i < others.len() implies T::representable(
            #[trigger] others[i],
        ) by {
            assert(others[i] == models[i + 1]);
        }
        lemma_items_round_trip::<T>(others, rest);
        assert(seq![models[0]] + others =~= models);
    } else {
        assert(models =~= Seq::<T::Model>::empty());
    }
}

/// Decoding undoes encoding for lists of a type for which it does.
pub proof fn lemma_vec_round_trips<T: Marshal + UnMarshal + 'static>()
    requires
        round_trips::<T>(),
    ensures
        round_trips::<Vec<T>>(),
{
    assert forall|m: Seq<T::Model>, rest: Seq<u8>|
        Vec::<T>::representable(m) implies #[trigger] Vec::<T>::decode(
        Vec::<T>::encoding(m) + rest,
    ) == (Decoded { outcome: Ok(m), used: Vec::<T>::encoding(m).len() }) by {
        lemma_usize_round_trips();
        let count = usize::encoding(m.len() as usize);
        let behind = encode_all::<T>(m) + rest;
        let input = Vec::<T>::encoding(m) + rest;
        assert(input =~= count + behind);
        assert(usize::decode(count + behind) == (Decoded {
            outcome: Ok(m.len() as usize),
            used: count.len(),
        }));
        assert(input.skip(count.len() as int) =~= behind);
        lemma_items_round_trip::<T>(m, rest);
    }
}

/// Decoding undoes encoding for text.
pub proof fn lemma_text_round_trips()
    ensures
        round_trips::<String>(),
{
    assert forall|m: Seq<char>, rest: Seq<u8>|
        String::representable(m) implies #[trigger] String::decode(String::encoding(m) + rest) == (
    Decoded { outcome: Ok(m), used: String::encoding(m).len() }) by {
        lemma_usize_round_trips();
        encode_utf8_valid_utf8(m);
        encode_utf8_decode_utf8(m);
        let bytes = encode_utf8(m);
        let count = usize::encoding(bytes.len() as usize);
        let behind = bytes + rest;
        let input = text_encoding(m) + rest;
        assert(input =~= count + behind);
        assert(usize::decode(count + behind) == (Decoded {
            outcome: Ok(bytes.len() as usize),
            used: count.len(),
        }));
        assert(input.skip(count.len() as int) =~= behind);
        assert(behind.take(bytes.len() as int) =~= bytes);
    }
}

} // verus!
