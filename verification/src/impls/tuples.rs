//! Tuples: the components one after the other, in their order.
//!
//! The arities from one to eight are written out one by one. A decoder reads the tuple of
//! the leading components, and then the last component.

use crate::error::MarshalError;
use crate::stream::MarshalIterator;
use crate::traits::Decoded;
use crate::traits::Marshal;
use crate::traits::UnMarshal;
use crate::traits::Wire;
use crate::utils::lemma_skip_twice;
use vstd::prelude::*;

verus! {

impl<T0: Wire> Wire for (T0,) {
    type Model = (T0::Model,);

    open spec fn model(&self) -> (T0::Model,) {
        (self.0.model(),)
    }

    open spec fn representable(m: (T0::Model,)) -> bool {
        T0::representable(m.0)
    }
}

impl<T0: Marshal> Marshal for (T0,) {
    open spec fn obeys_marshal_spec() -> bool {
        T0::obeys_marshal_spec()
    }

    open spec fn encoding(m: (T0::Model,)) -> Seq<u8> {
        T0::encoding(m.0)
    }

    fn marshal(self) -> (out: MarshalIterator) {
        self.0.marshal()
    }
}

impl<T0: UnMarshal> UnMarshal for (T0,) {
    open spec fn obeys_unmarshal_spec() -> bool {
        T0::obeys_unmarshal_spec()
    }

    open spec fn decode(input: Seq<u8>) -> Decoded<(T0::Model,)> {
        T0::decode(input).map(|m: T0::Model| (m,))
    }

    fn unmarshal<I: Iterator<Item = u8>>(data: &mut I) -> (res: Result<Self, MarshalError>) {
        match T0::unmarshal(data) {
            Ok(v) => Ok((v,)),
            Err(e) => Err(e),
        }
    }
}

impl<T0: Wire, T1: Wire> Wire for (T0, T1) {
    type Model = (T0::Model, T1::Model);

    open spec fn model(&self) -> (T0::Model, T1::Model) {
        (self.0.model(), self.1.model())
    }

    open spec fn representable(m: (T0::Model, T1::Model)) -> bool {
        &&& T0::representable(m.0)
        &&& T1::representable(m.1)
    }
}

impl<T0: Marshal, T1: Marshal> Marshal for (T0, T1) {
    open spec fn obeys_marshal_spec() -> bool {
        &&& T0::obeys_marshal_spec()
        &&& T1::obeys_marshal_spec()
    }

    open spec fn encoding(m: (T0::Model, T1::Model)) -> Seq<u8> {
        T0::encoding(m.0) + T1::encoding(m.1)
    }

    fn marshal(self) -> (out: MarshalIterator) {
        let (v0, v1) = self;
        v0.marshal().chain(v1.marshal())
    }
}

impl<T0: UnMarshal, T1: UnMarshal> UnMarshal for (T0, T1) {
    open spec fn obeys_unmarshal_spec() -> bool {
        &&& T0::obeys_unmarshal_spec()
        &&& T1::obeys_unmarshal_spec()
    }

    open spec fn decode(input: Seq<u8>) -> Decoded<(T0::Model, T1::Model)> {
        let d0 = T0::decode(input);
        let d1 = T1::decode(input.skip(d0.used as int));
        d0.followed_by(d1).map(
            |p: (T0::Model, T1::Model)|
                {
                    let (m0, m1) = p;
                    (m0, m1)
                },
        )
    }

    fn unmarshal<I: Iterator<Item = u8>>(data: &mut I) -> (res: Result<Self, MarshalError>) {
        let (v0,) = match <(T0,)>::unmarshal(data) {
            Ok(v) => v,
            Err(e) => {
                return Err(e);
            },
        };
        proof {
            lemma_skip_twice();
        }
        let v1 = match T1::unmarshal(data) {
            Ok(v) => v,
            Err(e) => {
                return Err(e);
            },
        };
        Ok((v0, v1))
    }
}

impl<T0: Wire, T1: Wire, T2: Wire> Wire for (T0, T1, T2) {
    type Model = (T0::Model, T1::Model, T2::Model);

    open spec fn model(&self) -> (T0::Model, T1::Model, T2::Model) {
        (self.0.model(), self.1.model(), self.2.model())
    }

    open spec fn representable(m: (T0::Model, T1::Model, T2::Model)) -> bool {
        &&& T0::representable(m.0)
        &&& T1::representable(m.1)
        &&& T2::representable(m.2)
    }
}

impl<T0: Marshal, T1: Marshal, T2: Marshal> Marshal for (T0, T1, T2) {
    open spec fn obeys_marshal_spec() -> bool {
        &&& T0::obeys_marshal_spec()
        &&& T1::obeys_marshal_spec()
        &&& T2::obeys_marshal_spec()
    }

    open spec fn encoding(m: (T0::Model, T1::Model, T2::Model)) -> Seq<u8> {
        T0::encoding(m.0) + T1::encoding(m.1) + T2::encoding(m.2)
    }

    fn marshal(self) -> (out: MarshalIterator) {
        let (v0, v1, v2) = self;
        v0.marshal().chain(v1.marshal()).chain(v2.marshal())
    }
}

impl<T0: UnMarshal, T1: UnMarshal, T2: UnMarshal> UnMarshal for (T0, T1, T2) {
    open spec fn obeys_unmarshal_spec() -> bool {
        &&& T0::obeys_unmarshal_spec()
        &&& T1::obeys_unmarshal_spec()
        &&& T2::obeys_unmarshal_spec()
    }

    open spec fn decode(input: Seq<u8>) -> Decoded<(T0::Model, T1::Model, T2::Model)> {
        let d0 = T0::decode(input);
        let d1 = T1::decode(input.skip(d0.used as int));
        let d2 = T2::decode(input.skip((d0.used + d1.used) as int));
        d0.followed_by(d1).followed_by(d2).map(
            |p: ((T0::Model, T1::Model), T2::Model)|
                {
                    let ((m0, m1), m2) = p;
                    (m0, m1, m2)
                },
        )
    }

    fn unmarshal<I: Iterator<Item = u8>>(data: &mut I) -> (res: Result<Self, MarshalError>) {
        let (v0, v1) = match <(T0, T1)>::unmarshal(data) {
            Ok(v) => v,
            Err(e) => {
                return Err(e);
            },
        };
        proof {
            lemma_skip_twice();
        }
        let v2 = match T2::unmarshal(data) {
            Ok(v) => v,
            Err(e) => {
                return Err(e);
            },
        };
        Ok((v0, v1, v2))
    }
}

impl<T0: Wire, T1: Wire, T2: Wire, T3: Wire> Wire for (T0, T1, T2, T3) {
    type Model = (T0::Model, T1::Model, T2::Model, T3::Model);

    open spec fn model(&self) -> (T0::Model, T1::Model, T2::Model, T3::Model) {
        (self.0.model(), self.1.model(), self.2.model(), self.3.model())
    }

    open spec fn representable(m: (T0::Model, T1::Model, T2::Model, T3::Model)) -> bool {
        &&& T0::representable(m.0)
        &&& T1::representable(m.1)
        &&& T2::representable(m.2)
        &&& T3::representable(m.3)
    }
}

impl<T0: Marshal, T1: Marshal, T2: Marshal, T3: Marshal> Marshal for (T0, T1, T2, T3) {
    open spec fn obeys_marshal_spec() -> bool {
        &&& T0::obeys_marshal_spec()
        &&& T1::obeys_marshal_spec()
        &&& T2::obeys_marshal_spec()
        &&& T3::obeys_marshal_spec()
    }

    open spec fn encoding(m: (T0::Model, T1::Model, T2::Model, T3::Model)) -> Seq<u8> {
        T0::encoding(m.0) + T1::encoding(m.1) + T2::encoding(m.2) + T3::encoding(m.3)
    }

    fn marshal(self) -> (out: MarshalIterator) {
        let (v0, v1, v2, v3) = self;
        v0.marshal().chain(v1.marshal()).chain(v2.marshal()).chain(v3.marshal())
    }
}

impl<T0: UnMarshal, T1: UnMarshal, T2: UnMarshal, T3: UnMarshal> UnMarshal for (T0, T1, T2, T3) {
    open spec fn obeys_unmarshal_spec() -> bool {
        &&& T0::obeys_unmarshal_spec()
        &&& T1::obeys_unmarshal_spec()
        &&& T2::obeys_unmarshal_spec()
        &&& T3::obeys_unmarshal_spec()
    }

    open spec fn decode(input: Seq<u8>) -> Decoded<(T0::Model, T1::Model, T2::Model, T3::Model)> {
        let d0 = T0::decode(input);
        let d1 = T1::decode(input.skip(d0.used as int));
        let d2 = T2::decode(input.skip((d0.used + d1.used) as int));
        let d3 = T3::decode(input.skip((d0.used + d1.used + d2.used) as int));
        d0.followed_by(d1).followed_by(d2).followed_by(d3).map(
            |p: (((T0::Model, T1::Model), T2::Model), T3::Model)|
                {
                    let (((m0, m1), m2), m3) = p;
                    (m0, m1, m2, m3)
                },
        )
    }

    fn unmarshal<I: Iterator<Item = u8>>(data: &mut I) -> (res: Result<Self, MarshalError>) {
        let (v0, v1, v2) = match <(T0, T1, T2)>::unmarshal(data) {
            Ok(v) => v,
            Err(e) => {
                return Err(e);
            },
        };
        proof {
            lemma_skip_twice();
        }
        let v3 = match T3::unmarshal(data) {
            Ok(v) => v,
            Err(e) => {
                return Err(e);
            },
        };
        Ok((v0, v1, v2, v3))
    }
}

impl<T0: Wire, T1: Wire, T2: Wire, T3: Wire, T4: Wire> Wire for (T0, T1, T2, T3, T4) {
    type Model = (T0::Model, T1::Model, T2::Model, T3::Model, T4::Model);

    open spec fn model(&self) -> (T0::Model, T1::Model, T2::Model, T3::Model, T4::Model) {
        (self.0.model(), self.1.model(), self.2.model(), self.3.model(), self.4.model())
    }

    open spec fn representable(m: (T0::Model, T1::Model, T2::Model, T3::Model, T4::Model)) -> bool {
        &&& T0::representable(m.0)
        &&& T1::representable(m.1)
        &&& T2::representable(m.2)
        &&& T3::representable(m.3)
        &&& T4::representable(m.4)
    }
}

impl<T0: Marshal, T1: Marshal, T2: Marshal, T3: Marshal, T4: Marshal> Marshal for (T0, T1, T2, T3, T4) {
    open spec fn obeys_marshal_spec() -> bool {
        &&& T0::obeys_marshal_spec()
        &&& T1::obeys_marshal_spec()
        &&& T2::obeys_marshal_spec()
        &&& T3::obeys_marshal_spec()
        &&& T4::obeys_marshal_spec()
    }

    open spec fn encoding(m: (T0::Model, T1::Model, T2::Model, T3::Model, T4::Model)) -> Seq<u8> {
        T0::encoding(m.0) + T1::encoding(m.1) + T2::encoding(m.2) + T3::encoding(m.3) + T4::encoding(m.4)
    }

    fn marshal(self) -> (out: MarshalIterator) {
        let (v0, v1, v2, v3, v4) = self;
        v0.marshal().chain(v1.marshal()).chain(v2.marshal()).chain(v3.marshal()).chain(v4.marshal())
    }
}

impl<T0: UnMarshal, T1: UnMarshal, T2: UnMarshal, T3: UnMarshal, T4: UnMarshal> UnMarshal for (T0, T1, T2, T3, T4) {
    open spec fn obeys_unmarshal_spec() -> bool {
        &&& T0::obeys_unmarshal_spec()
        &&& T1::obeys_unmarshal_spec()
        &&& T2::obeys_unmarshal_spec()
        &&& T3::obeys_unmarshal_spec()
        &&& T4::obeys_unmarshal_spec()
    }

    open spec fn decode(input: Seq<u8>) -> Decoded<(T0::Model, T1::Model, T2::Model, T3::Model, T4::Model)> {
        let d0 = T0::decode(input);
        let d1 = T1::decode(input.skip(d0.used as int));
        let d2 = T2::decode(input.skip((d0.used + d1.used) as int));
        let d3 = T3::decode(input.skip((d0.used + d1.used + d2.used) as int));
        let d4 = T4::decode(input.skip((d0.used + d1.used + d2.used + d3.used) as int));
        d0.followed_by(d1).followed_by(d2).followed_by(d3).followed_by(d4).map(
            |p: ((((T0::Model, T1::Model), T2::Model), T3::Model), T4::Model)|
                {
                    let ((((m0, m1), m2), m3), m4) = p;
                    (m0, m1, m2, m3, m4)
                },
        )
    }

    fn unmarshal<I: Iterator<Item = u8>>(data: &mut I) -> (res: Result<Self, MarshalError>) {
        let (v0, v1, v2, v3) = match <(T0, T1, T2, T3)>::unmarshal(data) {
            Ok(v) => v,
            Err(e) => {
                return Err(e);
            },
        };
        proof {
            lemma_skip_twice();
        }
        let v4 = match T4::unmarshal(data) {
            Ok(v) => v,
            Err(e) => {
                return Err(e);
            },
        };
        Ok((v0, v1, v2, v3, v4))
    }
}

impl<T0: Wire, T1: Wire, T2: Wire, T3: Wire, T4: Wire, T5: Wire> Wire for (T0, T1, T2, T3, T4, T5) {
    type Model = (T0::Model, T1::Model, T2::Model, T3::Model, T4::Model, T5::Model);

    open spec fn model(&self) -> (T0::Model, T1::Model, T2::Model, T3::Model, T4::Model, T5::Model) {
        (self.0.model(), self.1.model(), self.2.model(), self.3.model(), self.4.model(), self.5.model())
    }

    open spec fn representable(m: (T0::Model, T1::Model, T2::Model, T3::Model, T4::Model, T5::Model)) -> bool {
        &&& T0::representable(m.0)
        &&& T1::representable(m.1)
        &&& T2::representable(m.2)
        &&& T3::representable(m.3)
        &&& T4::representable(m.4)
        &&& T5::representable(m.5)
    }
}

impl<T0: Marshal, T1: Marshal, T2: Marshal, T3: Marshal, T4: Marshal, T5: Marshal> Marshal for (T0, T1, T2, T3, T4, T5) {
    open spec fn obeys_marshal_spec() -> bool {
        &&& T0::obeys_marshal_spec()
        &&& T1::obeys_marshal_spec()
        &&& T2::obeys_marshal_spec()
        &&& T3::obeys_marshal_spec()
        &&& T4::obeys_marshal_spec()
        &&& T5::obeys_marshal_spec()
    }

    open spec fn encoding(m: (T0::Model, T1::Model, T2::Model, T3::Model, T4::Model, T5::Model)) -> Seq<u8> {
        T0::encoding(m.0) + T1::encoding(m.1) + T2::encoding(m.2) + T3::encoding(m.3) + T4::encoding(m.4) + T5::encoding(m.5)
    }

    fn marshal(self) -> (out: MarshalIterator) {
        let (v0, v1, v2, v3, v4, v5) = self;
        v0.marshal().chain(v1.marshal()).chain(v2.marshal()).chain(v3.marshal()).chain(v4.marshal()).chain(v5.marshal())
    }
}

impl<T0: UnMarshal, T1: UnMarshal, T2: UnMarshal, T3: UnMarshal, T4: UnMarshal, T5: UnMarshal> UnMarshal for (T0, T1, T2, T3, T4, T5) {
    open spec fn obeys_unmarshal_spec() -> bool {
        &&& T0::obeys_unmarshal_spec()
        &&& T1::obeys_unmarshal_spec()
        &&& T2::obeys_unmarshal_spec()
        &&& T3::obeys_unmarshal_spec()
        &&& T4::obeys_unmarshal_spec()
        &&& T5::obeys_unmarshal_spec()
    }

    open spec fn decode(input: Seq<u8>) -> Decoded<(T0::Model, T1::Model, T2::Model, T3::Model, T4::Model, T5::Model)> {
        let d0 = T0::decode(input);
        let d1 = T1::decode(input.skip(d0.used as int));
        let d2 = T2::decode(input.skip((d0.used + d1.used) as int));
        let d3 = T3::decode(input.skip((d0.used + d1.used + d2.used) as int));
        let d4 = T4::decode(input.skip((d0.used + d1.used + d2.used + d3.used) as int));
        let d5 = T5::decode(input.skip((d0.used + d1.used + d2.used + d3.used + d4.used) as int));
        d0.followed_by(d1).followed_by(d2).followed_by(d3).followed_by(d4).followed_by(d5).map(
            |p: (((((T0::Model, T1::Model), T2::Model), T3::Model), T4::Model), T5::Model)|
                {
                    let (((((m0, m1), m2), m3), m4), m5) = p;
                    (m0, m1, m2, m3, m4, m5)
                },
        )
    }

    fn unmarshal<I: Iterator<Item = u8>>(data: &mut I) -> (res: Result<Self, MarshalError>) {
        let (v0, v1, v2, v3, v4) = match <(T0, T1, T2, T3, T4)>::unmarshal(data) {
            Ok(v) => v,
            Err(e) => {
                return Err(e);
            },
        };
        proof {
            lemma_skip_twice();
        }
        let v5 = match T5::unmarshal(data) {
            Ok(v) => v,
            Err(e) => {
                return Err(e);
            },
        };
        Ok((v0, v1, v2, v3, v4, v5))
    }
}

impl<T0: Wire, T1: Wire, T2: Wire, T3: Wire, T4: Wire, T5: Wire, T6: Wire> Wire for (T0, T1, T2, T3, T4, T5, T6) {
    type Model = (T0::Model, T1::Model, T2::Model, T3::Model, T4::Model, T5::Model, T6::Model);

    open spec fn model(&self) -> (T0::Model, T1::Model, T2::Model, T3::Model, T4::Model, T5::Model, T6::Model) {
        (self.0.model(), self.1.model(), self.2.model(), self.3.model(), self.4.model(), self.5.model(), self.6.model())
    }

    open spec fn representable(m: (T0::Model, T1::Model, T2::Model, T3::Model, T4::Model, T5::Model, T6::Model)) -> bool {
        &&& T0::representable(m.0)
        &&& T1::representable(m.1)
        &&& T2::representable(m.2)
        &&& T3::representable(m.3)
        &&& T4::representable(m.4)
        &&& T5::representable(m.5)
        &&& T6::representable(m.6)
    }
}

impl<T0: Marshal, T1: Marshal, T2: Marshal, T3: Marshal, T4: Marshal, T5: Marshal, T6: Marshal> Marshal for (T0, T1, T2, T3, T4, T5, T6) {
    open spec fn obeys_marshal_spec() -> bool {
        &&& T0::obeys_marshal_spec()
        &&& T1::obeys_marshal_spec()
        &&& T2::obeys_marshal_spec()
        &&& T3::obeys_marshal_spec()
        &&& T4::obeys_marshal_spec()
        &&& T5::obeys_marshal_spec()
        &&& T6::obeys_marshal_spec()
    }

    open spec fn encoding(m: (T0::Model, T1::Model, T2::Model, T3::Model, T4::Model, T5::Model, T6::Model)) -> Seq<u8> {
        T0::encoding(m.0) + T1::encoding(m.1) + T2::encoding(m.2) + T3::encoding(m.3) + T4::encoding(m.4) + T5::encoding(m.5) + T6::encoding(m.6)
    }

    fn marshal(self) -> (out: MarshalIterator) {
        let (v0, v1, v2, v3, v4, v5, v6) = self;
        v0.marshal().chain(v1.marshal()).chain(v2.marshal()).chain(v3.marshal()).chain(v4.marshal()).chain(v5.marshal()).chain(v6.marshal())
    }
}

impl<T0: UnMarshal, T1: UnMarshal, T2: UnMarshal, T3: UnMarshal, T4: UnMarshal, T5: UnMarshal, T6: UnMarshal> UnMarshal for (T0, T1, T2, T3, T4, T5, T6) {
    open spec fn obeys_unmarshal_spec() -> bool {
        &&& T0::obeys_unmarshal_spec()
        &&& T1::obeys_unmarshal_spec()
        &&& T2::obeys_unmarshal_spec()
        &&& T3::obeys_unmarshal_spec()
        &&& T4::obeys_unmarshal_spec()
        &&& T5::obeys_unmarshal_spec()
        &&& T6::obeys_unmarshal_spec()
    }

    open spec fn decode(input: Seq<u8>) -> Decoded<(T0::Model, T1::Model, T2::Model, T3::Model, T4::Model, T5::Model, T6::Model)> {
        let d0 = T0::decode(input);
        let d1 = T1::decode(input.skip(d0.used as int));
        let d2 = T2::decode(input.skip((d0.used + d1.used) as int));
        let d3 = T3::decode(input.skip((d0.used + d1.used + d2.used) as int));
        let d4 = T4::decode(input.skip((d0.used + d1.used + d2.used + d3.used) as int));
        let d5 = T5::decode(input.skip((d0.used + d1.used + d2.used + d3.used + d4.used) as int));
        let d6 = T6::decode(input.skip((d0.used + d1.used + d2.used + d3.used + d4.used + d5.used) as int));
        d0.followed_by(d1).followed_by(d2).followed_by(d3).followed_by(d4).followed_by(d5).followed_by(d6).map(
            |p: ((((((T0::Model, T1::Model), T2::Model), T3::Model), T4::Model), T5::Model), T6::Model)|
                {
                    let ((((((m0, m1), m2), m3), m4), m5), m6) = p;
                    (m0, m1, m2, m3, m4, m5, m6)
                },
        )
    }

    fn unmarshal<I: Iterator<Item = u8>>(data: &mut I) -> (res: Result<Self, MarshalError>) {
        let (v0, v1, v2, v3, v4, v5) = match <(T0, T1, T2, T3, T4, T5)>::unmarshal(data) {
            Ok(v) => v,
            Err(e) => {
                return Err(e);
            },
        };
        proof {
            lemma_skip_twice();
        }
        let v6 = match T6::unmarshal(data) {
            Ok(v) => v,
            Err(e) => {
                return Err(e);
            },
        };
        Ok((v0, v1, v2, v3, v4, v5, v6))
    }
}

impl<T0: Wire, T1: Wire, T2: Wire, T3: Wire, T4: Wire, T5: Wire, T6: Wire, T7: Wire> Wire for (T0, T1, T2, T3, T4, T5, T6, T7) {
    type Model = (T0::Model, T1::Model, T2::Model, T3::Model, T4::Model, T5::Model, T6::Model, T7::Model);

    open spec fn model(&self) -> (T0::Model, T1::Model, T2::Model, T3::Model, T4::Model, T5::Model, T6::Model, T7::Model) {
        (self.0.model(), self.1.model(), self.2.model(), self.3.model(), self.4.model(), self.5.model(), self.6.model(), self.7.model())
    }

    open spec fn representable(m: (T0::Model, T1::Model, T2::Model, T3::Model, T4::Model, T5::Model, T6::Model, T7::Model)) -> bool {
        &&& T0::representable(m.0)
        &&& T1::representable(m.1)
        &&& T2::representable(m.2)
        &&& T3::representable(m.3)
        &&& T4::representable(m.4)
        &&& T5::representable(m.5)
        &&& T6::representable(m.6)
        &&& T7::representable(m.7)
    }
}

impl<T0: Marshal, T1: Marshal, T2: Marshal, T3: Marshal, T4: Marshal, T5: Marshal, T6: Marshal, T7: Marshal> Marshal for (T0, T1, T2, T3, T4, T5, T6, T7) {
    open spec fn obeys_marshal_spec() -> bool {
        &&& T0::obeys_marshal_spec()
        &&& T1::obeys_marshal_spec()
        &&& T2::obeys_marshal_spec()
        &&& T3::obeys_marshal_spec()
        &&& T4::obeys_marshal_spec()
        &&& T5::obeys_marshal_spec()
        &&& T6::obeys_marshal_spec()
        &&& T7::obeys_marshal_spec()
    }

    open spec fn encoding(m: (T0::Model, T1::Model, T2::Model, T3::Model, T4::Model, T5::Model, T6::Model, T7::Model)) -> Seq<u8> {
        T0::encoding(m.0) + T1::encoding(m.1) + T2::encoding(m.2) + T3::encoding(m.3) + T4::encoding(m.4) + T5::encoding(m.5) + T6::encoding(m.6) + T7::encoding(m.7)
    }

    fn marshal(self) -> (out: MarshalIterator) {
        let (v0, v1, v2, v3, v4, v5, v6, v7) = self;
        v0.marshal().chain(v1.marshal()).chain(v2.marshal()).chain(v3.marshal()).chain(v4.marshal()).chain(v5.marshal()).chain(v6.marshal()).chain(v7.marshal())
    }
}

impl<T0: UnMarshal, T1: UnMarshal, T2: UnMarshal, T3: UnMarshal, T4: UnMarshal, T5: UnMarshal, T6: UnMarshal, T7: UnMarshal> UnMarshal for (T0, T1, T2, T3, T4, T5, T6, T7) {
    open spec fn obeys_unmarshal_spec() -> bool {
        &&& T0::obeys_unmarshal_spec()
        &&& T1::obeys_unmarshal_spec()
        &&& T2::obeys_unmarshal_spec()
        &&& T3::obeys_unmarshal_spec()
        &&& T4::obeys_unmarshal_spec()
        &&& T5::obeys_unmarshal_spec()
        &&& T6::obeys_unmarshal_spec()
        &&& T7::obeys_unmarshal_spec()
    }

    open spec fn decode(input: Seq<u8>) -> Decoded<(T0::Model, T1::Model, T2::Model, T3::Model, T4::Model, T5::Model, T6::Model, T7::Model)> {
        let d0 = T0::decode(input);
        let d1 = T1::decode(input.skip(d0.used as int));
        let d2 = T2::decode(input.skip((d0.used + d1.used) as int));
        let d3 = T3::decode(input.skip((d0.used + d1.used + d2.used) as int));
        let d4 = T4::decode(input.skip((d0.used + d1.used + d2.used + d3.used) as int));
        let d5 = T5::decode(input.skip((d0.used + d1.used + d2.used + d3.used + d4.used) as int));
        let d6 = T6::decode(input.skip((d0.used + d1.used + d2.used + d3.used + d4.used + d5.used) as int));
        let d7 = T7::decode(input.skip((d0.used + d1.used + d2.used + d3.used + d4.used + d5.used + d6.used) as int));
        d0.followed_by(d1).followed_by(d2).followed_by(d3).followed_by(d4).followed_by(d5).followed_by(d6).followed_by(d7).map(
            |p: (((((((T0::Model, T1::Model), T2::Model), T3::Model), T4::Model), T5::Model), T6::Model), T7::Model)|
                {
                    let (((((((m0, m1), m2), m3), m4), m5), m6), m7) = p;
                    (m0, m1, m2, m3, m4, m5, m6, m7)
                },
        )
    }

    fn unmarshal<I: Iterator<Item = u8>>(data: &mut I) -> (res: Result<Self, MarshalError>) {
        let (v0, v1, v2, v3, v4, v5, v6) = match <(T0, T1, T2, T3, T4, T5, T6)>::unmarshal(data) {
            Ok(v) => v,
            Err(e) => {
                return Err(e);
            },
        };
        proof {
            lemma_skip_twice();
        }
        let v7 = match T7::unmarshal(data) {
            Ok(v) => v,
            Err(e) => {
                return Err(e);
            },
        };
        Ok((v0, v1, v2, v3, v4, v5, v6, v7))
    }
}

} // verus!
