//! The laws of the tuples.

use crate::laws::round_trips;
use crate::traits::Decoded;
use crate::traits::Marshal;
use crate::traits::UnMarshal;
use crate::traits::Wire;
use vstd::prelude::*;

verus! {

/// Decoding undoes encoding for one-tuples, where it does for the components.
pub proof fn lemma_tuple1_round_trips<T0: Marshal + UnMarshal>()
    requires
        round_trips::<T0>(),
    ensures
        round_trips::<(T0,)>(),
{
    assert forall|m: (T0::Model,), rest: Seq<u8>|
        <(T0,)>::representable(m) implies #[trigger] <(T0,)>::decode(
        <(T0,)>::encoding(m) + rest,
    ) == (Decoded { outcome: Ok(m), used: <(T0,)>::encoding(m).len() }) by {
        let e0 = T0::encoding(m.0);
        let b0 = rest;
        let input = <(T0,)>::encoding(m) + rest;
        assert(input =~= e0 + b0);
        assert(T0::decode(e0 + b0) == (Decoded { outcome: Ok(m.0), used: e0.len() }));
    }
}

/// Decoding undoes encoding for tuples of 2, where it does for the components.
pub proof fn lemma_tuple2_round_trips<T0: Marshal + UnMarshal, T1: Marshal + UnMarshal>()
    requires
        round_trips::<T0>(),
        round_trips::<T1>(),
    ensures
        round_trips::<(T0, T1)>(),
{
    assert forall|m: (T0::Model, T1::Model), rest: Seq<u8>|
        <(T0, T1)>::representable(m) implies #[trigger] <(T0, T1)>::decode(
        <(T0, T1)>::encoding(m) + rest,
    ) == (Decoded { outcome: Ok(m), used: <(T0, T1)>::encoding(m).len() }) by {
        let e0 = T0::encoding(m.0);
        let e1 = T1::encoding(m.1);
        let b1 = rest;
        let b0 = e1 + b1;
        let input = <(T0, T1)>::encoding(m) + rest;
        assert(input =~= e0 + b0);
        assert(T0::decode(e0 + b0) == (Decoded { outcome: Ok(m.0), used: e0.len() }));
        assert(input.skip((e0.len()) as int) =~= e1 + b1);
        assert(T1::decode(e1 + b1) == (Decoded { outcome: Ok(m.1), used: e1.len() }));
    }
}

/// Decoding undoes encoding for tuples of 3, where it does for the components.
pub proof fn lemma_tuple3_round_trips<T0: Marshal + UnMarshal, T1: Marshal + UnMarshal, T2: Marshal + UnMarshal>()
    requires
        round_trips::<T0>(),
        round_trips::<T1>(),
        round_trips::<T2>(),
    ensures
        round_trips::<(T0, T1, T2)>(),
{
    assert forall|m: (T0::Model, T1::Model, T2::Model), rest: Seq<u8>|
        <(T0, T1, T2)>::representable(m) implies #[trigger] <(T0, T1, T2)>::decode(
        <(T0, T1, T2)>::encoding(m) + rest,
    ) == (Decoded { outcome: Ok(m), used: <(T0, T1, T2)>::encoding(m).len() }) by {
        let e0 = T0::encoding(m.0);
        let e1 = T1::encoding(m.1);
        let e2 = T2::encoding(m.2);
        let b2 = rest;
        let b1 = e2 + b2;
        let b0 = e1 + b1;
        let input = <(T0, T1, T2)>::encoding(m) + rest;
        assert(input =~= e0 + b0);
        assert(T0::decode(e0 + b0) == (Decoded { outcome: Ok(m.0), used: e0.len() }));
        assert(input.skip((e0.len()) as int) =~= e1 + b1);
        assert(T1::decode(e1 + b1) == (Decoded { outcome: Ok(m.1), used: e1.len() }));
        assert(input.skip((e0.len() + e1.len()) as int) =~= e2 + b2);
        assert(T2::decode(e2 + b2) == (Decoded { outcome: Ok(m.2), used: e2.len() }));
    }
}

/// Decoding undoes encoding for tuples of 4, where it does for the components.
pub proof fn lemma_tuple4_round_trips<T0: Marshal + UnMarshal, T1: Marshal + UnMarshal, T2: Marshal + UnMarshal, T3: Marshal + UnMarshal>()
    requires
        round_trips::<T0>(),
        round_trips::<T1>(),
        round_trips::<T2>(),
        round_trips::<T3>(),
    ensures
        round_trips::<(T0, T1, T2, T3)>(),
{
    assert forall|m: (T0::Model, T1::Model, T2::Model, T3::Model), rest: Seq<u8>|
        <(T0, T1, T2, T3)>::representable(m) implies #[trigger] <(T0, T1, T2, T3)>::decode(
        <(T0, T1, T2, T3)>::encoding(m) + rest,
    ) == (Decoded { outcome: Ok(m), used: <(T0, T1, T2, T3)>::encoding(m).len() }) by {
        let e0 = T0::encoding(m.0);
        let e1 = T1::encoding(m.1);
        let e2 = T2::encoding(m.2);
        let e3 = T3::encoding(m.3);
        let b3 = rest;
        let b2 = e3 + b3;
        let b1 = e2 + b2;
        let b0 = e1 + b1;
        let input = <(T0, T1, T2, T3)>::encoding(m) + rest;
        assert(input =~= e0 + b0);
        assert(T0::decode(e0 + b0) == (Decoded { outcome: Ok(m.0), used: e0.len() }));
        assert(input.skip((e0.len()) as int) =~= e1 + b1);
        assert(T1::decode(e1 + b1) == (Decoded { outcome: Ok(m.1), used: e1.len() }));
        assert(input.skip((e0.len() + e1.len()) as int) =~= e2 + b2);
        assert(T2::decode(e2 + b2) == (Decoded { outcome: Ok(m.2), used: e2.len() }));
        assert(input.skip((e0.len() + e1.len() + e2.len()) as int) =~= e3 + b3);
        assert(T3::decode(e3 + b3) == (Decoded { outcome: Ok(m.3), used: e3.len() }));
    }
}

/// Decoding undoes encoding for tuples of 5, where it does for the components.
pub proof fn lemma_tuple5_round_trips<T0: Marshal + UnMarshal, T1: Marshal + UnMarshal, T2: Marshal + UnMarshal, T3: Marshal + UnMarshal, T4: Marshal + UnMarshal>()
    requires
        round_trips::<T0>(),
        round_trips::<T1>(),
        round_trips::<T2>(),
        round_trips::<T3>(),
        round_trips::<T4>(),
    ensures
        round_trips::<(T0, T1, T2, T3, T4)>(),
{
    assert forall|m: (T0::Model, T1::Model, T2::Model, T3::Model, T4::Model), rest: Seq<u8>|
        <(T0, T1, T2, T3, T4)>::representable(m) implies #[trigger] <(T0, T1, T2, T3, T4)>::decode(
        <(T0, T1, T2, T3, T4)>::encoding(m) + rest,
    ) == (Decoded { outcome: Ok(m), used: <(T0, T1, T2, T3, T4)>::encoding(m).len() }) by {
        let e0 = T0::encoding(m.0);
        let e1 = T1::encoding(m.1);
        let e2 = T2::encoding(m.2);
        let e3 = T3::encoding(m.3);
        let e4 = T4::encoding(m.4);
        let b4 = rest;
        let b3 = e4 + b4;
        let b2 = e3 + b3;
        let b1 = e2 + b2;
        let b0 = e1 + b1;
        let input = <(T0, T1, T2, T3, T4)>::encoding(m) + rest;
        assert(input =~= e0 + b0);
        assert(T0::decode(e0 + b0) == (Decoded { outcome: Ok(m.0), used: e0.len() }));
        assert(input.skip((e0.len()) as int) =~= e1 + b1);
        assert(T1::decode(e1 + b1) == (Decoded { outcome: Ok(m.1), used: e1.len() }));
        assert(input.skip((e0.len() + e1.len()) as int) =~= e2 + b2);
        assert(T2::decode(e2 + b2) == (Decoded { outcome: Ok(m.2), used: e2.len() }));
        assert(input.skip((e0.len() + e1.len() + e2.len()) as int) =~= e3 + b3);
        assert(T3::decode(e3 + b3) == (Decoded { outcome: Ok(m.3), used: e3.len() }));
        assert(input.skip((e0.len() + e1.len() + e2.len() + e3.len()) as int) =~= e4 + b4);
        assert(T4::decode(e4 + b4) == (Decoded { outcome: Ok(m.4), used: e4.len() }));
    }
}

/// Decoding undoes encoding for tuples of 6, where it does for the components.
pub proof fn lemma_tuple6_round_trips<T0: Marshal + UnMarshal, T1: Marshal + UnMarshal, T2: Marshal + UnMarshal, T3: Marshal + UnMarshal, T4: Marshal + UnMarshal, T5: Marshal + UnMarshal>()
    requires
        round_trips::<T0>(),
        round_trips::<T1>(),
        round_trips::<T2>(),
        round_trips::<T3>(),
        round_trips::<T4>(),
        round_trips::<T5>(),
    ensures
        round_trips::<(T0, T1, T2, T3, T4, T5)>(),
{
    assert forall|m: (T0::Model, T1::Model, T2::Model, T3::Model, T4::Model, T5::Model), rest: Seq<u8>|
        <(T0, T1, T2, T3, T4, T5)>::representable(m) implies #[trigger] <(T0, T1, T2, T3, T4, T5)>::decode(
        <(T0, T1, T2, T3, T4, T5)>::encoding(m) + rest,
    ) == (Decoded { outcome: Ok(m), used: <(T0, T1, T2, T3, T4, T5)>::encoding(m).len() }) by {
        let e0 = T0::encoding(m.0);
        let e1 = T1::encoding(m.1);
        let e2 = T2::encoding(m.2);
        let e3 = T3::encoding(m.3);
        let e4 = T4::encoding(m.4);
        let e5 = T5::encoding(m.5);
        let b5 = rest;
        let b4 = e5 + b5;
        let b3 = e4 + b4;
        let b2 = e3 + b3;
        let b1 = e2 + b2;
        let b0 = e1 + b1;
        let input = <(T0, T1, T2, T3, T4, T5)>::encoding(m) + rest;
        assert(input =~= e0 + b0);
        assert(T0::decode(e0 + b0) == (Decoded { outcome: Ok(m.0), used: e0.len() }));
        assert(input.skip((e0.len()) as int) =~= e1 + b1);
        assert(T1::decode(e1 + b1) == (Decoded { outcome: Ok(m.1), used: e1.len() }));
        assert(input.skip((e0.len() + e1.len()) as int) =~= e2 + b2);
        assert(T2::decode(e2 + b2) == (Decoded { outcome: Ok(m.2), used: e2.len() }));
        assert(input.skip((e0.len() + e1.len() + e2.len()) as int) =~= e3 + b3);
        assert(T3::decode(e3 + b3) == (Decoded { outcome: Ok(m.3), used: e3.len() }));
        assert(input.skip((e0.len() + e1.len() + e2.len() + e3.len()) as int) =~= e4 + b4);
        assert(T4::decode(e4 + b4) == (Decoded { outcome: Ok(m.4), used: e4.len() }));
        assert(input.skip((e0.len() + e1.len() + e2.len() + e3.len() + e4.len()) as int) =~= e5 + b5);
        assert(T5::decode(e5 + b5) == (Decoded { outcome: Ok(m.5), used: e5.len() }));
    }
}

/// Decoding undoes encoding for tuples of 7, where it does for the components.
pub proof fn lemma_tuple7_round_trips<T0: Marshal + UnMarshal, T1: Marshal + UnMarshal, T2: Marshal + UnMarshal, T3: Marshal + UnMarshal, T4: Marshal + UnMarshal, T5: Marshal + UnMarshal, T6: Marshal + UnMarshal>()
    requires
        round_trips::<T0>(),
        round_trips::<T1>(),
        round_trips::<T2>(),
        round_trips::<T3>(),
        round_trips::<T4>(),
        round_trips::<T5>(),
        round_trips::<T6>(),
    ensures
        round_trips::<(T0, T1, T2, T3, T4, T5, T6)>(),
{
    assert forall|m: (T0::Model, T1::Model, T2::Model, T3::Model, T4::Model, T5::Model, T6::Model), rest: Seq<u8>|
        <(T0, T1, T2, T3, T4, T5, T6)>::representable(m) implies #[trigger] <(T0, T1, T2, T3, T4, T5, T6)>::decode(
        <(T0, T1, T2, T3, T4, T5, T6)>::encoding(m) + rest,
    ) == (Decoded { outcome: Ok(m), used: <(T0, T1, T2, T3, T4, T5, T6)>::encoding(m).len() }) by {
        let e0 = T0::encoding(m.0);
        let e1 = T1::encoding(m.1);
        let e2 = T2::encoding(m.2);
        let e3 = T3::encoding(m.3);
        let e4 = T4::encoding(m.4);
        let e5 = T5::encoding(m.5);
        let e6 = T6::encoding(m.6);
        let b6 = rest;
        let b5 = e6 + b6;
        let b4 = e5 + b5;
        let b3 = e4 + b4;
        let b2 = e3 + b3;
        let b1 = e2 + b2;
        let b0 = e1 + b1;
        let input = <(T0, T1, T2, T3, T4, T5, T6)>::encoding(m) + rest;
        assert(input =~= e0 + b0);
        assert(T0::decode(e0 + b0) == (Decoded { outcome: Ok(m.0), used: e0.len() }));
        assert(input.skip((e0.len()) as int) =~= e1 + b1);
        assert(T1::decode(e1 + b1) == (Decoded { outcome: Ok(m.1), used: e1.len() }));
        assert(input.skip((e0.len() + e1.len()) as int) =~= e2 + b2);
        assert(T2::decode(e2 + b2) == (Decoded { outcome: Ok(m.2), used: e2.len() }));
        assert(input.skip((e0.len() + e1.len() + e2.len()) as int) =~= e3 + b3);
        assert(T3::decode(e3 + b3) == (Decoded { outcome: Ok(m.3), used: e3.len() }));
        assert(input.skip((e0.len() + e1.len() + e2.len() + e3.len()) as int) =~= e4 + b4);
        assert(T4::decode(e4 + b4) == (Decoded { outcome: Ok(m.4), used: e4.len() }));
        assert(input.skip((e0.len() + e1.len() + e2.len() + e3.len() + e4.len()) as int) =~= e5 + b5);
        assert(T5::decode(e5 + b5) == (Decoded { outcome: Ok(m.5), used: e5.len() }));
        assert(input.skip((e0.len() + e1.len() + e2.len() + e3.len() + e4.len() + e5.len()) as int) =~= e6 + b6);
        assert(T6::decode(e6 + b6) == (Decoded { outcome: Ok(m.6), used: e6.len() }));
    }
}

/// Decoding undoes encoding for tuples of 8, where it does for the components.
pub proof fn lemma_tuple8_round_trips<T0: Marshal + UnMarshal, T1: Marshal + UnMarshal, T2: Marshal + UnMarshal, T3: Marshal + UnMarshal, T4: Marshal + UnMarshal, T5: Marshal + UnMarshal, T6: Marshal + UnMarshal, T7: Marshal + UnMarshal>()
    requires
        round_trips::<T0>(),
        round_trips::<T1>(),
        round_trips::<T2>(),
        round_trips::<T3>(),
        round_trips::<T4>(),
        round_trips::<T5>(),
        round_trips::<T6>(),
        round_trips::<T7>(),
    ensures
        round_trips::<(T0, T1, T2, T3, T4, T5, T6, T7)>(),
{
    assert forall|m: (T0::Model, T1::Model, T2::Model, T3::Model, T4::Model, T5::Model, T6::Model, T7::Model), rest: Seq<u8>|
        <(T0, T1, T2, T3, T4, T5, T6, T7)>::representable(m) implies #[trigger] <(T0, T1, T2, T3, T4, T5, T6, T7)>::decode(
        <(T0, T1, T2, T3, T4, T5, T6, T7)>::encoding(m) + rest,
    ) == (Decoded { outcome: Ok(m), used: <(T0, T1, T2, T3, T4, T5, T6, T7)>::encoding(m).len() }) by {
        let e0 = T0::encoding(m.0);
        let e1 = T1::encoding(m.1);
        let e2 = T2::encoding(m.2);
        let e3 = T3::encoding(m.3);
        let e4 = T4::encoding(m.4);
        let e5 = T5::encoding(m.5);
        let e6 = T6::encoding(m.6);
        let e7 = T7::encoding(m.7);
        let b7 = rest;
        let b6 = e7 + b7;
        let b5 = e6 + b6;
        let b4 = e5 + b5;
        let b3 = e4 + b4;
        let b2 = e3 + b3;
        let b1 = e2 + b2;
        let b0 = e1 + b1;
        let input = <(T0, T1, T2, T3, T4, T5, T6, T7)>::encoding(m) + rest;
        assert(input =~= e0 + b0);
        assert(T0::decode(e0 + b0) == (Decoded { outcome: Ok(m.0), used: e0.len() }));
        assert(input.skip((e0.len()) as int) =~= e1 + b1);
        assert(T1::decode(e1 + b1) == (Decoded { outcome: Ok(m.1), used: e1.len() }));
        assert(input.skip((e0.len() + e1.len()) as int) =~= e2 + b2);
        assert(T2::decode(e2 + b2) == (Decoded { outcome: Ok(m.2), used: e2.len() }));
        assert(input.skip((e0.len() + e1.len() + e2.len()) as int) =~= e3 + b3);
        assert(T3::decode(e3 + b3) == (Decoded { outcome: Ok(m.3), used: e3.len() }));
        assert(input.skip((e0.len() + e1.len() + e2.len() + e3.len()) as int) =~= e4 + b4);
        assert(T4::decode(e4 + b4) == (Decoded { outcome: Ok(m.4), used: e4.len() }));
        assert(input.skip((e0.len() + e1.len() + e2.len() + e3.len() + e4.len()) as int) =~= e5 + b5);
        assert(T5::decode(e5 + b5) == (Decoded { outcome: Ok(m.5), used: e5.len() }));
        assert(input.skip((e0.len() + e1.len() + e2.len() + e3.len() + e4.len() + e5.len()) as int) =~= e6 + b6);
        assert(T6::decode(e6 + b6) == (Decoded { outcome: Ok(m.6), used: e6.len() }));
        assert(input.skip((e0.len() + e1.len() + e2.len() + e3.len() + e4.len() + e5.len() + e6.len()) as int) =~= e7 + b7);
        assert(T7::decode(e7 + b7) == (Decoded { outcome: Ok(m.7), used: e7.len() }));
    }
}

} // verus!
