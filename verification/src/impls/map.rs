//! Maps: the count of the entries, then each entry as its key and its value.
//!
//! A map is encoded in the order in which it hands out its entries, which is its own:
//! its encoding is not a function of what it holds. Decoding accepts every order, and
//! refuses a key that comes twice.

use crate::error::duplicate_key_prefix;
use crate::error::Fault;
use crate::error::MarshalError;
use crate::impls::list::encode_all;
use crate::impls::list::marshal_items;
use crate::impls::list::models_of;
use crate::stream::ByteStream;
use crate::stream::MarshalIterator;
use crate::traits::read_as;
use crate::traits::Decoded;
use crate::traits::Marshal;
use crate::traits::UnMarshal;
use crate::traits::Wire;
use crate::utils::lemma_skip_twice;
use std::collections::HashMap;
use std::fmt::Debug;
use std::hash::Hash;
use vstd::prelude::*;
use vstd::std_specs::hash::obeys_key_model;
use vstd::std_specs::iter::IteratorSpec;

verus! {

broadcast use vstd::std_specs::hash::group_hash_axioms;

/// Whether two keys with the same model are the same key.
pub open spec fn model_injective<K: Wire>() -> bool {
    forall|a: K, b: K| #[trigger] a.model() == #[trigger] b.model() ==> a == b
}

/// The map of the models of the entries of `m`.
pub open spec fn map_model<K: Wire, V: Wire>(m: Map<K, V>) -> Map<K::Model, V::Model> {
    Map::new(
        |km: K::Model| exists|k: K| m.contains_key(k) && #[trigger] k.model() == km,
        |km: K::Model| m[choose|k: K| m.contains_key(k) && #[trigger] k.model() == km].model(),
    )
}

/// The model of a map with no entries has none.
pub proof fn lemma_map_model_empty<K: Wire, V: Wire>()
    ensures
        map_model(Map::<K, V>::empty()) == Map::<K::Model, V::Model>::empty(),
{
    assert(map_model(Map::<K, V>::empty()) =~= Map::<K::Model, V::Model>::empty());
}

/// An entry put into a map is put into its model.
pub proof fn lemma_map_model_insert<K: Wire, V: Wire>(m: Map<K, V>, k: K, v: V)
    requires
        model_injective::<K>(),
    ensures
        map_model(m).contains_key(k.model()) <==> m.contains_key(k),
        map_model(m.insert(k, v)) == map_model(m).insert(k.model(), v.model()),
{
    let after = m.insert(k, v);
    assert forall|km: K::Model| #[trigger]
        map_model(after).contains_key(km) <==> map_model(m).insert(
            k.model(),
            v.model(),
        ).contains_key(km) by {
        if map_model(after).contains_key(km) {
            let w = choose|w: K| after.contains_key(w) && #[trigger] w.model() == km;
            if w != k {
                assert(m.contains_key(w) && w.model() == km);
            }
        }
        if map_model(m).contains_key(km) {
            let w = choose|w: K| m.contains_key(w) && #[trigger] w.model() == km;
            assert(after.contains_key(w) && w.model() == km);
        }
        if km == k.model() {
            assert(after.contains_key(k) && k.model() == km);
        }
    }
    assert forall|km: K::Model| #[trigger] map_model(after).contains_key(km) implies map_model(
        after,
    )[km] == map_model(m).insert(k.model(), v.model())[km] by {
        let w = choose|w: K| after.contains_key(w) && #[trigger] w.model() == km;
        if km == k.model() {
            assert(w == k);
        } else {
            assert(m.contains_key(w) && w.model() == km);
            let u = choose|u: K| m.contains_key(u) && #[trigger] u.model() == km;
            assert(u == w);
        }
    }
    assert(map_model(after) =~= map_model(m).insert(k.model(), v.model()));
}

impl<K: Wire, V: Wire> Wire for HashMap<K, V> {
    type Model = Map<K::Model, V::Model>;

    open spec fn model(&self) -> Map<K::Model, V::Model> {
        map_model(self@)
    }

    open spec fn representable(m: Map<K::Model, V::Model>) -> bool {
        &&& m.dom().finite()
        &&& m.len() <= usize::MAX
        &&& forall|k: K::Model| #[trigger]
            m.contains_key(k) ==> K::representable(k) && V::representable(m[k])
    }
}

/// Whether `order` holds each entry of `m` once.
pub open spec fn lists_entries<K, V>(order: Seq<(K, V)>, m: Map<K, V>) -> bool {
    &&& order.len() == m.len()
    &&& forall|i: int|
        0 <= i < order.len() ==> m.contains_key((#[trigger] order[i]).0) && m[order[i].0]
            == order[i].1
    &&& forall|i: int, j: int|
        0 <= i < j < order.len() ==> (#[trigger] order[i]).0 != (#[trigger] order[j]).0
    &&& forall|k: K| #[trigger]
        m.contains_key(k) ==> exists|i: int| 0 <= i < order.len() && (#[trigger] order[i]).0 == k
}

/// The bytes that stand for a map whose entries come in the order of `entries`.
pub open spec fn entries_encoding<K: Marshal, V: Marshal>(
    entries: Seq<(K::Model, V::Model)>,
) -> Seq<u8> {
    usize::encoding(entries.len() as usize) + encode_all::<(K, V)>(entries)
}

/// `HashMap::into_iter` hands out every entry of the map once, in an order of its own;
/// the entries are collected as they come. The claim is made of maps whose keys hash and
/// compare as their values say, as every claim on what a map holds is.
#[verifier::external_body]
fn into_entries<K, V>(map: HashMap<K, V>) -> (entries: Vec<(K, V)>)
    ensures
        obeys_key_model::<K>() ==> lists_entries(entries@, map@),
{
    map.into_iter().collect()
}

/// The message of the error for a key that comes twice; `previous` is the value that the
/// key had. `format!` writes the fixed words and then the `Debug` form of the value, of
/// which nothing is claimed.
#[verifier::external_body]
fn duplicate_key_message<V: Debug>(previous: &V) -> (message: String)
    ensures
        duplicate_key_prefix().is_prefix_of(message@),
{
    format!("Duplicate Key while decoding HashMap: {previous:#?}")
}

impl<K: Marshal + 'static, V: Marshal + 'static> Marshal for HashMap<K, V> {
    /// For a map whose keys hash and compare as their values say, and whose keys and
    /// values keep to their encodings, the stream yields the count and then the entries
    /// in some order in which each comes once.
    fn marshal(self) -> (out: MarshalIterator)
        ensures
            obeys_key_model::<K>() && K::obeys_marshal_spec() && V::obeys_marshal_spec() ==> {
                &&& out.lawful()
                &&& exists|order: Seq<(K, V)>|
                    lists_entries(order, self@) && out.pending() == entries_encoding::<K, V>(
                        #[trigger] models_of(order),
                    )
            },
    {
        let len = self.len();
        let entries = into_entries(self);
        let out = len.marshal().chain(marshal_items(entries));
        proof {
            if obeys_key_model::<K>() && K::obeys_marshal_spec() && V::obeys_marshal_spec() {
                assert(models_of(entries@).len() == len);
                assert(lists_entries(entries@, self@) && out.pending() == entries_encoding::<K, V>(
                    models_of(entries@),
                ));
            }
        }
        out
    }
}

/// What `input` decodes to as `count` entries that join those of `acc`: the map of them
/// all, or the fault of the first entry that fails or whose key is there already.
pub open spec fn decode_entries<K: UnMarshal, V: UnMarshal>(
    input: Seq<u8>,
    count: nat,
    acc: Map<K::Model, V::Model>,
) -> Decoded<Map<K::Model, V::Model>>
    decreases count,
{
    if count == 0 {
        Decoded { outcome: Ok(acc), used: 0 }
    } else {
        let key = K::decode(input);
        let entry = key.followed_by(V::decode(input.skip(key.used as int)));
        match entry.outcome {
            Ok(p) => if acc.contains_key(p.0) {
                Decoded { outcome: Err(Fault::DuplicateKey), used: entry.used }
            } else {
                decode_entries::<K, V>(
                    input.skip(entry.used as int),
                    (count - 1) as nat,
                    acc.insert(p.0, p.1),
                ).after(entry.used)
            },
            Err(fault) => Decoded { outcome: Err(fault), used: entry.used },
        }
    }
}

/// Reading one more entry carries a read of entries one step on.
proof fn lemma_decode_entries_step<K: UnMarshal, V: UnMarshal>()
    ensures
        forall|now: Seq<u8>, k: nat, acc: Map<K::Model, V::Model>, used: nat|
            k > 0 ==> #[trigger] decode_entries::<K, V>(now, k, acc).after(used) == ({
                let key = K::decode(now);
                let entry = key.followed_by(V::decode(now.skip(key.used as int)));
                match entry.outcome {
                    Ok(p) => if acc.contains_key(p.0) {
                        Decoded { outcome: Err(Fault::DuplicateKey), used: used + entry.used }
                    } else {
                        decode_entries::<K, V>(
                            now.skip(entry.used as int),
                            (k - 1) as nat,
                            acc.insert(p.0, p.1),
                        ).after(used + entry.used)
                    },
                    Err(fault) => Decoded { outcome: Err(fault), used: used + entry.used },
                }
            }),
{
}

/// Whether a read of `count` entries that began on `input` stands, after `done` entries
/// that make up `acc`, on `now`.
spec fn reading_entries<K: UnMarshal, V: UnMarshal>(
    input: Seq<u8>,
    count: nat,
    now: Seq<u8>,
    acc: Map<K::Model, V::Model>,
    done: nat,
) -> bool {
    &&& done <= count
    &&& now.len() <= input.len()
    &&& now == input.skip(input.len() - now.len())
    &&& decode_entries::<K, V>(input, count, Map::empty()) == decode_entries::<K, V>(
        now,
        (count - done) as nat,
        acc,
    ).after((input.len() - now.len()) as nat)
}

/// The result of a read of a map, the map replaced by its model.
pub open spec fn modeled_map<K: Wire, V: Wire>(res: Result<HashMap<K, V>, MarshalError>) -> Result<
    Map<K::Model, V::Model>,
    MarshalError,
> {
    match res {
        Ok(m) => Ok(map_model(m@)),
        Err(e) => Err(e),
    }
}

/// Reads `count` entries into a map, and stops at the first that fails or whose key is
/// there already.
pub fn unmarshal_entries<K, V, I>(data: &mut I, count: usize) -> (res: Result<
    HashMap<K, V>,
    MarshalError,
>) where K: UnMarshal + Hash + Eq, V: UnMarshal + Debug, I: Iterator<Item = u8>
    ensures
        keyed::<K, V>() && (*old(data)).obeys_prophetic_iter_laws() ==> {
            &&& (*final(data)).obeys_prophetic_iter_laws()
            &&& read_as(
                decode_entries::<K, V>((*old(data)).remaining(), count as nat, Map::empty()),
                (*old(data)).remaining(),
                (*final(data)).remaining(),
                modeled_map(res),
            )
        },
{
    let mut val: HashMap<K, V> = HashMap::new();
    let mut i: usize = 0;
    proof {
        lemma_map_model_empty::<K, V>();
        assert(keyed::<K, V>() && (*old(data)).obeys_prophetic_iter_laws() ==> (*old(
            data,
        )).remaining().skip(0) =~= (*old(data)).remaining());
    }
    while i < count
        invariant
            i <= count,
            keyed::<K, V>() && (*old(data)).obeys_prophetic_iter_laws() ==> {
                &&& (*data).obeys_prophetic_iter_laws()
                &&& reading_entries::<K, V>(
                    (*old(data)).remaining(),
                    count as nat,
                    (*data).remaining(),
                    map_model(val@),
                    i as nat,
                )
            },
        decreases count - i,
    {
        proof {
            lemma_decode_entries_step::<K, V>();
            lemma_skip_twice();
        }
        let key = match K::unmarshal(data) {
            Ok(k) => k,
            Err(e) => {
                return Err(e);
            },
        };
        let value = match V::unmarshal(data) {
            Ok(v) => v,
            Err(e) => {
                return Err(e);
            },
        };
        proof {
            if model_injective::<K>() {
                lemma_map_model_insert(val@, key, value);
            }
        }
        match val.insert(key, value) {
            Some(a) => {
                return Err(MarshalError::InvalidData(duplicate_key_message(&a)));
            },
            None => {},
        }
        i = i + 1;
    }
    Ok(val)
}

/// Whether the keys and values of a map decode as they say, and the keys hash and
/// compare as their models do.
pub open spec fn keyed<K: UnMarshal, V: UnMarshal>() -> bool {
    &&& K::obeys_unmarshal_spec()
    &&& V::obeys_unmarshal_spec()
    &&& obeys_key_model::<K>()
    &&& model_injective::<K>()
}

impl<K, V> UnMarshal for HashMap<K, V> where K: UnMarshal + Hash + Eq, V: UnMarshal + Debug {
    open spec fn obeys_unmarshal_spec() -> bool {
        keyed::<K, V>()
    }

    open spec fn decode(input: Seq<u8>) -> Decoded<Map<K::Model, V::Model>> {
        let count = usize::decode(input);
        match count.outcome {
            Ok(n) => decode_entries::<K, V>(
                input.skip(count.used as int),
                n as nat,
                Map::empty(),
            ).after(count.used),
            Err(fault) => Decoded { outcome: Err(fault), used: count.used },
        }
    }

    fn unmarshal<I: Iterator<Item = u8>>(data: &mut I) -> (res: Result<Self, MarshalError>) {
        proof {
            lemma_skip_twice();
        }
        let len = match usize::unmarshal(data) {
            Ok(n) => n,
            Err(e) => {
                return Err(e);
            },
        };
        unmarshal_entries(data, len)
    }
}

} // verus!
