//! Lists: the count of the items, then the items one after the other.

use crate::error::Fault;
use crate::error::MarshalError;
use crate::stream::ByteStream;
use crate::stream::MarshalIterator;
use crate::traits::read_as;
use crate::traits::Decoded;
use crate::traits::Marshal;
use crate::traits::UnMarshal;
use crate::traits::Wire;
use crate::utils::lemma_skip_twice;
use vstd::prelude::*;
use vstd::std_specs::iter::IteratorSpec;

verus! {

/// The encodings of `models`, one after the other.
pub open spec fn encode_all<T: Marshal>(models: Seq<T::Model>) -> Seq<u8>
    decreases models.len(),
{
    if models.len() == 0 {
        Seq::empty()
    } else {
        T::encoding(models[0]) + encode_all::<T>(models.drop_first())
    }
}

/// What `input` decodes to as `count` items in a row: the items, or the fault of the
/// first one that fails.
pub open spec fn decode_all<T: UnMarshal>(input: Seq<u8>, count: nat) -> Decoded<Seq<T::Model>>
    decreases count,
{
    if count == 0 {
        Decoded { outcome: Ok(Seq::empty()), used: 0 }
    } else {
        let first = T::decode(input);
        first.followed_by(decode_all::<T>(input.skip(first.used as int), (count - 1) as nat)).map(
            |p: (T::Model, Seq<T::Model>)| seq![p.0] + p.1,
        )
    }
}

/// The models of `items`.
pub open spec fn models_of<T: Wire>(items: Seq<T>) -> Seq<T::Model> {
    Seq::new(items.len(), |i: int| items[i].model())
}

/// The models of `items`, last item first.
pub open spec fn models_backwards<T: Wire>(items: Seq<T>) -> Seq<T::Model> {
    Seq::new(items.len(), |i: int| items[items.len() - 1 - i].model())
}

/// The items of a list as a stream: each item is encoded when its first byte is asked
/// for, and not before.
pub struct Elements<T: Marshal> {
    current: MarshalIterator,
    rest: Vec<T>,
    /// Whether every stream that `current` has held so far was lawful.
    sound: Ghost<bool>,
}

impl<T: Marshal> Elements<T> {
    /// A stream of the encodings of `items`, in their order.
    pub fn new(items: Vec<T>) -> (out: Self)
        ensures
            out.lawful() == T::obeys_marshal_spec(),
            out.pending() == encode_all::<T>(models_of(items@)),
    {
        let mut items = items;
        let mut rest: Vec<T> = Vec::new();
        let ghost all = items@;
        while items.len() > 0
            invariant
                all.len() == items@.len() + rest@.len(),
                forall|i: int| 0 <= i < items@.len() ==> items@[i] == all[i],
                forall|i: int| 0 <= i < rest@.len() ==> rest@[i] == all[all.len() - 1 - i],
            decreases items@.len(),
        {
            let item = items.pop().unwrap();
            rest.push(item);
        }
        let out = Elements { current: MarshalIterator::empty(), rest, sound: Ghost(true) };
        assert(models_backwards(rest@) =~= models_of(all));
        assert(out.pending() =~= encode_all::<T>(models_of(all)));
        out
    }
}

impl<T: Marshal> ByteStream for Elements<T> {
    closed spec fn lawful(&self) -> bool {
        T::obeys_marshal_spec() && self.sound@ && self.current.lawful()
    }

    closed spec fn pending(&self) -> Seq<u8> {
        self.current.pending() + encode_all::<T>(models_backwards(self.rest@))
    }

    fn pull(&mut self) -> (out: Option<u8>) {
        loop
            invariant
                self.lawful() == old(self).lawful(),
                old(self).lawful() ==> self.pending() == old(self).pending(),
            decreases self.rest@.len(),
        {
            match self.current.pull() {
                Some(b) => {
                    assert(old(self).lawful() ==> self.pending() =~= old(self).pending().drop_first());
                    return Some(b);
                },
                None => {
                    let ghost backlog = models_backwards(self.rest@);
                    match self.rest.pop() {
                        Some(item) => {
                            let ghost was = self.sound@ && self.current.lawful();
                            self.current = item.marshal();
                            self.sound = Ghost(was);
                            proof {
                                assert(backlog.drop_first() =~= models_backwards(self.rest@));
                                assert(backlog[0] == item.model());
                                if old(self).lawful() {
                                    assert(self.pending() =~= old(self).pending());
                                }
                            }
                        },
                        None => {
                            assert(old(self).lawful() ==> old(self).pending() =~= Seq::<u8>::empty());
                            return None;
                        },
                    }
                },
            }
        }
    }
}

/// The stream of the encodings of `items`, in their order.
pub fn marshal_items<T: Marshal + 'static>(items: Vec<T>) -> (out: MarshalIterator)
    ensures
        out.lawful() == T::obeys_marshal_spec(),
        out.pending() == encode_all::<T>(models_of(items@)),
{
    MarshalIterator(Box::new(Elements::new(items)))
}

/// A read of items that has `done` behind it after `used` bytes, and `rest` ahead.
spec fn resume<M>(done: Seq<M>, used: nat, rest: Decoded<Seq<M>>) -> Decoded<Seq<M>> {
    Decoded {
        outcome: match rest.outcome {
            Ok(ms) => Ok(done + ms),
            Err(fault) => Err(fault),
        },
        used: used + rest.used,
    }
}

/// Reading one more item carries a read of items one step on.
proof fn lemma_decode_all_step<T: UnMarshal>()
    ensures
        forall|now: Seq<u8>, k: nat, done: Seq<T::Model>, used: nat|
            k > 0 ==> #[trigger] resume(done, used, decode_all::<T>(now, k)) == (match T::decode(
                now,
            ).outcome {
                Ok(m) => resume(
                    done.push(m),
                    used + T::decode(now).used,
                    decode_all::<T>(now.skip(T::decode(now).used as int), (k - 1) as nat),
                ),
                Err(fault) => Decoded { outcome: Err(fault), used: used + T::decode(now).used },
            }),
{
    assert forall|now: Seq<u8>, k: nat, done: Seq<T::Model>, used: nat| k > 0 implies #[trigger] resume(
        done,
        used,
        decode_all::<T>(now, k),
    ) == (match T::decode(now).outcome {
        Ok(m) => resume(
            done.push(m),
            used + T::decode(now).used,
            decode_all::<T>(now.skip(T::decode(now).used as int), (k - 1) as nat),
        ),
        Err(fault) => Decoded { outcome: Err(fault), used: used + T::decode(now).used },
    }) by {
        let first = T::decode(now);
        let after = decode_all::<T>(now.skip(first.used as int), (k - 1) as nat);
        match first.outcome {
            Ok(m) => {
                match after.outcome {
                    Ok(ms) => {
                        assert(done + (seq![m] + ms) =~= done.push(m) + ms);
                    },
                    Err(_) => {},
                }
            },
            Err(_) => {},
        }
    }
}

/// Whether a read of `count` items that began on `input` stands, after `done` items, on
/// `now`.
spec fn reading<T: UnMarshal>(
    input: Seq<u8>,
    count: nat,
    now: Seq<u8>,
    done: Seq<T::Model>,
) -> bool {
    &&& done.len() <= count
    &&& now.len() <= input.len()
    &&& now == input.skip(input.len() - now.len())
    &&& decode_all::<T>(input, count) == resume(
        done,
        (input.len() - now.len()) as nat,
        decode_all::<T>(now, (count - done.len()) as nat),
    )
}

/// Reads `count` items in a row, and stops at the first that fails.
pub fn unmarshal_items<T: UnMarshal, I: Iterator<Item = u8>>(data: &mut I, count: usize) -> (res:
    Result<Vec<T>, MarshalError>)
    ensures
        T::obeys_unmarshal_spec() && (*old(data)).obeys_prophetic_iter_laws() ==> {
            &&& (*final(data)).obeys_prophetic_iter_laws()
            &&& read_as(
                decode_all::<T>((*old(data)).remaining(), count as nat),
                (*old(data)).remaining(),
                (*final(data)).remaining(),
                modeled_items(res),
            )
        },
{
    let mut val: Vec<T> = Vec::new();
    proof {
        lemma_decode_all_step::<T>();
        lemma_skip_twice();
        assert(models_of(val@) =~= Seq::<T::Model>::empty());
        assert(T::obeys_unmarshal_spec() && (*old(data)).obeys_prophetic_iter_laws() ==> {
            &&& (*old(data)).remaining().skip(0) =~= (*old(data)).remaining()
            &&& resume(
                Seq::<T::Model>::empty(),
                0,
                decode_all::<T>((*old(data)).remaining(), count as nat),
            ) =~= decode_all::<T>((*old(data)).remaining(), count as nat)
        });
    }
    while val.len() < count
        invariant
            val@.len() <= count,
            T::obeys_unmarshal_spec() && (*old(data)).obeys_prophetic_iter_laws() ==> {
                &&& (*data).obeys_prophetic_iter_laws()
                &&& reading::<T>(
                    (*old(data)).remaining(),
                    count as nat,
                    (*data).remaining(),
                    models_of(val@),
                )
            },
        decreases count - val@.len(),
    {
        proof {
            lemma_decode_all_step::<T>();
            lemma_skip_twice();
        }
        let ghost done = models_of(val@);
        match T::unmarshal(data) {
            Ok(v) => {
                val.push(v);
                assert(models_of(val@) =~= done.push(v.model()));
            },
            Err(e) => {
                return Err(e);
            },
        }
    }
    proof {
        assert(T::obeys_unmarshal_spec() && (*old(data)).obeys_prophetic_iter_laws() ==> resume(
            models_of(val@),
            ((*old(data)).remaining().len() - (*data).remaining().len()) as nat,
            decode_all::<T>((*data).remaining(), 0),
        ).outcome == Ok::<Seq<T::Model>, Fault>(models_of(val@) + Seq::empty()));
        assert(models_of(val@) + Seq::empty() =~= models_of(val@));
    }
    Ok(val)
}

/// The result of a read of items, the items replaced by their models.
pub open spec fn modeled_items<T: Wire>(res: Result<Vec<T>, MarshalError>) -> Result<
    Seq<T::Model>,
    MarshalError,
> {
    match res {
        Ok(v) => Ok(models_of(v@)),
        Err(e) => Err(e),
    }
}

impl<T: Wire> Wire for Vec<T> {
    type Model = Seq<T::Model>;

    open spec fn model(&self) -> Seq<T::Model> {
        models_of(self@)
    }

    open spec fn representable(m: Seq<T::Model>) -> bool {
        &&& m.len() <= usize::MAX
        &&& forall|i: int| 0 <= i < m.len() ==> T::representable(#[trigger] m[i])
    }
}

impl<T: Marshal + 'static> Marshal for Vec<T> {
    open spec fn obeys_marshal_spec() -> bool {
        T::obeys_marshal_spec()
    }

    open spec fn encoding(m: Seq<T::Model>) -> Seq<u8> {
        usize::encoding(m.len() as usize) + encode_all::<T>(m)
    }

    fn marshal(self) -> (out: MarshalIterator) {
        let len = self.len();
        len.marshal().chain(marshal_items(self))
    }
}

impl<T: UnMarshal> UnMarshal for Vec<T> {
    open spec fn obeys_unmarshal_spec() -> bool {
        T::obeys_unmarshal_spec()
    }

    open spec fn decode(input: Seq<u8>) -> Decoded<Seq<T::Model>> {
        let count = usize::decode(input);
        match count.outcome {
            Ok(n) => decode_all::<T>(input.skip(count.used as int), n as nat).after(count.used),
            Err(fault) => Decoded { outcome: Err(fault), used: count.used },
        }
    }

    fn unmarshal<I: Iterator<Item = u8>>(data: &mut I) -> (res: Result<Self, MarshalError>) {
        proof {
            lemma_skip_twice();
        }
        let len = match usize::unmarshal(data) {
            Ok(n) => n,
            Err(e) => {
                return Err(e);
            },
        };
        unmarshal_items(data, len)
    }
}

/// Whether a clone of a value stands for the same model as the value.
pub open spec fn clone_keeps_model<T: Wire + Clone>() -> bool {
    forall|a: T, b: T| #[trigger] cloned(a, b) ==> a.model() == b.model()
}

/// Clones of the items of `items`, in their order.
pub fn clone_items<T: Clone>(items: &[T]) -> (out: Vec<T>)
    ensures
        out@.len() == items@.len(),
        forall|i: int| 0 <= i < items@.len() ==> cloned(items@[i], #[trigger] out@[i]),
{
    let mut out: Vec<T> = Vec::new();
    let mut i: usize = 0;
    while i < items.len()
        invariant
            i <= items@.len(),
            out@.len() == i,
            forall|j: int| 0 <= j < i ==> cloned(items@[j], #[trigger] out@[j]),
        decreases items@.len() - i,
    {
        out.push(items[i].clone());
        i = i + 1;
    }
    out
}

impl<'a, T: Wire> Wire for &'a [T] {
    type Model = Seq<T::Model>;

    open spec fn model(&self) -> Seq<T::Model> {
        models_of(self@)
    }

    open spec fn representable(m: Seq<T::Model>) -> bool {
        Vec::<T>::representable(m)
    }
}

/// A borrowed list is encoded as the list of the clones of its items.
impl<'a, T: Marshal + Clone + 'static> Marshal for &'a [T] {
    open spec fn obeys_marshal_spec() -> bool {
        T::obeys_marshal_spec() && clone_keeps_model::<T>()
    }

    open spec fn encoding(m: Seq<T::Model>) -> Seq<u8> {
        Vec::<T>::encoding(m)
    }

    fn marshal(self) -> (out: MarshalIterator) {
        let owned = clone_items(self);
        assert(clone_keeps_model::<T>() ==> models_of(owned@) =~= models_of(self@));
        owned.marshal()
    }
}

} // verus!
