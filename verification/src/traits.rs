//! The two halves of the codec: `Marshal` encodes a value, `UnMarshal` decodes one.

use crate::error::Fault;
use crate::error::MarshalError;
use crate::stream::ByteStream;
use crate::stream::MarshalIterator;
use vstd::prelude::*;
use vstd::std_specs::iter::IteratorSpec;

verus! {

/// What decoding a sequence of bytes gives: the value or the failure, and the number of
/// bytes that the decoder takes from the front of the sequence in either case.
pub struct Decoded<M> {
    pub outcome: Result<M, Fault>,
    pub used: nat,
}

impl<M> Decoded<M> {
    /// The same outcome, a value replaced by its image under `f`.
    pub open spec fn map<N>(self, f: spec_fn(M) -> N) -> Decoded<N> {
        Decoded {
            outcome: match self.outcome {
                Ok(m) => Ok(f(m)),
                Err(fault) => Err(fault),
            },
            used: self.used,
        }
    }

    /// The same outcome, a value replaced by what `f` makes of it, which may be a fault.
    pub open spec fn and_then<N>(self, f: spec_fn(M) -> Result<N, Fault>) -> Decoded<N> {
        Decoded {
            outcome: match self.outcome {
                Ok(m) => f(m),
                Err(fault) => Err(fault),
            },
            used: self.used,
        }
    }

    /// This read with `used` more bytes taken before it.
    pub open spec fn after(self, used: nat) -> Decoded<M> {
        Decoded { outcome: self.outcome, used: used + self.used }
    }

    /// This read and then, where it gave a value, the read `next`, made on what this
    /// one left.
    pub open spec fn followed_by<N>(self, next: Decoded<N>) -> Decoded<(M, N)> {
        match self.outcome {
            Ok(m) => Decoded {
                outcome: match next.outcome {
                    Ok(n) => Ok((m, n)),
                    Err(fault) => Err(fault),
                },
                used: self.used + next.used,
            },
            Err(fault) => Decoded { outcome: Err(fault), used: self.used },
        }
    }
}

/// Whether a read went as `d` says: `input` is what the cursor held before the read,
/// `rest` what it holds after it, `res` what the read returned.
pub open spec fn read_as<M>(
    d: Decoded<M>,
    input: Seq<u8>,
    rest: Seq<u8>,
    res: Result<M, MarshalError>,
) -> bool {
    &&& d.used <= input.len()
    &&& rest == input.skip(d.used as int)
    &&& match res {
        Ok(m) => d.outcome == Ok::<M, Fault>(m),
        Err(e) => d.outcome is Err && e.reports(d.outcome->Err_0),
    }
}

/// A type with a place in the wire format: its values stand for those of `Model`.
pub trait Wire: Sized {
    /// What a value of the type stands for: a number, a sequence, a map.
    type Model;

    /// The model of this value.
    open spec fn model(&self) -> Self::Model {
        arbitrary()
    }

    /// Whether `m` can be the model of a value: its lengths and counts fit a machine
    /// word.
    open spec fn representable(m: Self::Model) -> bool {
        true
    }
}

/// The result of a decode, the value replaced by its model.
pub open spec fn modeled<T: Wire>(res: Result<T, MarshalError>) -> Result<T::Model, MarshalError> {
    match res {
        Ok(v) => Ok(v.model()),
        Err(e) => Err(e),
    }
}

/// A type whose values can be encoded.
///
/// A type that `obeys_marshal_spec` yields for each value exactly the bytes of
/// `encoding`. An implementation that states nothing promises nothing.
pub trait Marshal: Wire {
    /// Whether `marshal` keeps to `encoding`.
    open spec fn obeys_marshal_spec() -> bool {
        false
    }

    /// The bytes that stand for the value with model `m`.
    open spec fn encoding(m: Self::Model) -> Seq<u8> {
        Seq::empty()
    }

    /// Encodes the value as a lazily produced sequence of bytes.
    fn marshal(self) -> (out: MarshalIterator)
        ensures
            Self::obeys_marshal_spec() ==> out.lawful() && out.pending() == Self::encoding(
                self.model(),
            ),
    ;
}

/// A type whose values can be decoded from a cursor of bytes.
///
/// A type that `obeys_unmarshal_spec` reads as `decode` says, from every cursor that
/// keeps the laws of iterators: it takes `used` bytes and no more, and returns the value
/// whose model `decode` gives, or the error that reports the fault.
pub trait UnMarshal: Wire {
    /// Whether `unmarshal` keeps to `decode`.
    open spec fn obeys_unmarshal_spec() -> bool {
        false
    }

    /// What the bytes `input` decode to.
    open spec fn decode(input: Seq<u8>) -> Decoded<Self::Model> {
        Decoded { outcome: Err(Fault::InvalidDecode), used: 0 }
    }

    /// Decodes one value from the front of `data`.
    fn unmarshal<I: Iterator<Item = u8>>(data: &mut I) -> (res: Result<Self, MarshalError>)
        ensures
            Self::obeys_unmarshal_spec() && (*old(data)).obeys_prophetic_iter_laws() ==> {
                &&& (*final(data)).obeys_prophetic_iter_laws()
                &&& read_as(
                    Self::decode((*old(data)).remaining()),
                    (*old(data)).remaining(),
                    (*final(data)).remaining(),
                    modeled(res),
                )
            },
    ;
}

} // verus!
