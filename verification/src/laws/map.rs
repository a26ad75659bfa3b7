//! The laws of the maps: whatever the order of the entries, decoding gives the map that
//! holds them, and it refuses a key that comes twice.

use crate::error::Fault;
use crate::impls::list::encode_all;
use crate::impls::map::decode_entries;
use crate::impls::list::models_of;
use crate::impls::map::entries_encoding;
use crate::impls::map::lists_entries;
use crate::impls::map::map_model;
use crate::impls::map::model_injective;
use crate::laws::numbers::lemma_usize_round_trips;
use crate::laws::round_trips;
use crate::traits::Decoded;
use crate::traits::Marshal;
use crate::traits::UnMarshal;
use crate::traits::Wire;
use std::collections::HashMap;
use std::fmt::Debug;
use std::hash::Hash;
use vstd::prelude::*;

verus! {

/// The map `acc` with the entries `entries` put into it, first entry first.
pub open spec fn with_entries<K, V>(acc: Map<K, V>, entries: Seq<(K, V)>) -> Map<K, V>
    decreases entries.len(),
{
    if entries.len() == 0 {
        acc
    } else {
        with_entries(acc.insert(entries[0].0, entries[0].1), entries.drop_first())
    }
}

/// Whether no key comes twice in `entries`.
pub open spec fn distinct_keys<K, V>(entries: Seq<(K, V)>) -> bool {
    forall|i: int, j: int|
        0 <= i < j < entries.len() ==> (#[trigger] entries[i]).0 != (#[trigger] entries[j]).0
}

/// Whether every key and value of `entries` can be the model of a value.
pub open spec fn representable_entries<K: Wire, V: Wire>(
    entries: Seq<(K::Model, V::Model)>,
) -> bool {
    forall|i: int|
        0 <= i < entries.len() ==> K::representable((#[trigger] entries[i]).0) && V::representable(
            entries[i].1,
        )
}

/// The encoding of an entry, with whatever bytes behind it, decodes to the entry.
proof fn lemma_entry_round_trip<K: Marshal + UnMarshal, V: Marshal + UnMarshal>(
    k: K::Model,
    v: V::Model,
    behind: Seq<u8>,
)
    requires
        round_trips::<K>(),
        round_trips::<V>(),
        K::representable(k),
        V::representable(v),
    ensures
        ({
            let input = <(K, V)>::encoding((k, v)) + behind;
            let key = K::decode(input);
            key.followed_by(V::decode(input.skip(key.used as int))) == (Decoded {
                outcome: Ok((k, v)),
                used: <(K, V)>::encoding((k, v)).len(),
            })
        }),
{
    let ek = K::encoding(k);
    let ev = V::encoding(v);
    let input = <(K, V)>::encoding((k, v)) + behind;
    assert(input =~= ek + (ev + behind));
    assert(K::decode(ek + (ev + behind)) == (Decoded { outcome: Ok(k), used: ek.len() }));
    assert(input.skip(ek.len() as int) =~= ev + behind);
    assert(V::decode(ev + behind) == (Decoded { outcome: Ok(v), used: ev.len() }));
}

/// The encodings of entries with distinct keys, none of them in `acc`, decode to `acc`
/// with those entries.
pub proof fn lemma_entries_round_trip<K: Marshal + UnMarshal, V: Marshal + UnMarshal>(
    entries: Seq<(K::Model, V::Model)>,
    rest: Seq<u8>,
    acc: Map<K::Model, V::Model>,
)
    requires
        round_trips::<K>(),
        round_trips::<V>(),
        representable_entries::<K, V>(entries),
        distinct_keys(entries),
        forall|i: int| 0 <= i < entries.len() ==> !acc.contains_key((#[trigger] entries[i]).0),
    ensures
        decode_entries::<K, V>(encode_all::<(K, V)>(entries) + rest, entries.len(), acc) == (
        Decoded {
            outcome: Ok(with_entries(acc, entries)),
            used: encode_all::<(K, V)>(entries).len(),
        }),
    decreases entries.len(),
{
    if entries.len() > 0 {
        let (k, v) = entries[0];
        let others = entries.drop_first();
        let first = <(K, V)>::encoding((k, v));
        let behind = encode_all::<(K, V)>(others) + rest;
        let input = encode_all::<(K, V)>(entries) + rest;
        assert(entries[0] == (k, v));
        assert(input =~= first + behind);
        lemma_entry_round_trip::<K, V>(k, v, behind);
        assert(input.skip(first.len() as int) =~= behind);
        assert forall|i: int| 0 <= i < others.len() implies !acc.insert(k, v).contains_key(
            (#[trigger] others[i]).0,
        ) by {
            assert(others[i] == entries[i + 1]);
        }
        assert(distinct_keys(others)) by {
            assert forall|i: int, j: int| 0 <= i < j < others.len() implies (#[trigger] others[i]).0
                != (#[trigger] others[j]).0 by {
                assert(others[i] == entries[i + 1]);
                assert(others[j] == entries[j + 1]);
            }
        }
        assert(representable_entries::<K, V>(others)) by {
            assert forall|i: int| 0 <= i < others.len() implies K::representable(
                (#[trigger] others[i]).0,
            ) && V::representable(others[i].1) by {
                assert(others[i] == entries[i + 1]);
            }
        }
        lemma_entries_round_trip::<K, V>(others, rest, acc.insert(k, v));
    }
}

/// Whatever the order of its entries, the encoding of a map decodes to the map: the
/// count and the entries, no key twice, with whatever bytes behind them, decode to the
/// map that holds the entries.
pub proof fn lemma_map_round_trip<K, V>(entries: Seq<(K::Model, V::Model)>, rest: Seq<u8>) where
    K: Marshal + UnMarshal + Hash + Eq,
    V: Marshal + UnMarshal + Debug,

    requires
        round_trips::<K>(),
        round_trips::<V>(),
        representable_entries::<K, V>(entries),
        distinct_keys(entries),
        entries.len() <= usize::MAX,
    ensures
        HashMap::<K, V>::decode(entries_encoding::<K, V>(entries) + rest) == (Decoded {
            outcome: Ok(with_entries(Map::empty(), entries)),
            used: entries_encoding::<K, V>(entries).len(),
        }),
{
    lemma_usize_round_trips();
    let count = usize::encoding(entries.len() as usize);
    let behind = encode_all::<(K, V)>(entries) + rest;
    let input = entries_encoding::<K, V>(entries) + rest;
    assert(input =~= count + behind);
    assert(usize::decode(count + behind) == (Decoded {
        outcome: Ok(entries.len() as usize),
        used: count.len(),
    }));
    assert(input.skip(count.len() as int) =~= behind);
    lemma_entries_round_trip::<K, V>(entries, rest, Map::empty());
}

/// Whether a key of `entries` is in `acc` already, or comes twice in `entries`.
pub open spec fn repeats_key<K, V>(acc: Map<K, V>, entries: Seq<(K, V)>) -> bool {
    ||| exists|i: int| 0 <= i < entries.len() && acc.contains_key((#[trigger] entries[i]).0)
    ||| !distinct_keys(entries)
}

/// Entries of which one repeats a key are refused.
pub proof fn lemma_entries_with_repeated_key<K: Marshal + UnMarshal, V: Marshal + UnMarshal>(
    entries: Seq<(K::Model, V::Model)>,
    rest: Seq<u8>,
    acc: Map<K::Model, V::Model>,
)
    requires
        round_trips::<K>(),
        round_trips::<V>(),
        representable_entries::<K, V>(entries),
        repeats_key(acc, entries),
    ensures
        decode_entries::<K, V>(
            encode_all::<(K, V)>(entries) + rest,
            entries.len(),
            acc,
        ).outcome == Err::<Map<K::Model, V::Model>, Fault>(Fault::DuplicateKey),
    decreases entries.len(),
{
    if entries.len() == 0 {
        assert(distinct_keys(entries));
    } else {
        let (k, v) = entries[0];
        let others = entries.drop_first();
        let first = <(K, V)>::encoding((k, v));
        let behind = encode_all::<(K, V)>(others) + rest;
        let input = encode_all::<(K, V)>(entries) + rest;
        assert(entries[0] == (k, v));
        assert(input =~= first + behind);
        lemma_entry_round_trip::<K, V>(k, v, behind);
        assert(input.skip(first.len() as int) =~= behind);
        if !acc.contains_key(k) {
            let after = acc.insert(k, v);
            assert(representable_entries::<K, V>(others)) by {
                assert forall|i: int| 0 <= i < others.len() implies K::representable(
                    (#[trigger] others[i]).0,
                ) && V::representable(others[i].1) by {
                    assert(others[i] == entries[i + 1]);
                }
            }
            assert(repeats_key(after, others)) by {
                if exists|i: int|
                    0 <= i < entries.len() && acc.contains_key((#[trigger] entries[i]).0) {
                    let i = choose|i: int|
                        0 <= i < entries.len() && acc.contains_key((#[trigger] entries[i]).0);
                    assert(others[i - 1] == entries[i]);
                    assert(after.contains_key(others[i - 1].0));
                } else {
                    let (i, j) = choose|i: int, j: int|
                        0 <= i < j < entries.len() && (#[trigger] entries[i]).0 == (
                        #[trigger] entries[j]).0;
                    assert(others[j - 1] == entries[j]);
                    if i == 0 {
                        assert(after.contains_key(others[j - 1].0));
                    } else {
                        assert(others[i - 1] == entries[i]);
                        assert(!distinct_keys(others));
                    }
                }
            }
            lemma_entries_with_repeated_key::<K, V>(others, rest, after);
        }
    }
}

/// A map in whose encoding a key comes twice is refused: the count and the entries, with
/// whatever bytes behind them, decode to the fault of the repeated key.
pub proof fn lemma_repeated_key_is_refused<K, V>(entries: Seq<(K::Model, V::Model)>, rest: Seq<u8>) where
    K: Marshal + UnMarshal + Hash + Eq,
    V: Marshal + UnMarshal + Debug,

    requires
        round_trips::<K>(),
        round_trips::<V>(),
        representable_entries::<K, V>(entries),
        !distinct_keys(entries),
        entries.len() <= usize::MAX,
    ensures
        HashMap::<K, V>::decode(entries_encoding::<K, V>(entries) + rest).outcome == Err::<
            Map<K::Model, V::Model>,
            Fault,
        >(Fault::DuplicateKey),
{
    lemma_usize_round_trips();
    let count = usize::encoding(entries.len() as usize);
    let behind = encode_all::<(K, V)>(entries) + rest;
    let input = entries_encoding::<K, V>(entries) + rest;
    assert(input =~= count + behind);
    assert(usize::decode(count + behind) == (Decoded {
        outcome: Ok(entries.len() as usize),
        used: count.len(),
    }));
    assert(input.skip(count.len() as int) =~= behind);
    lemma_entries_with_repeated_key::<K, V>(entries, rest, Map::empty());
}

/// What a map holds once entries with distinct keys, none of them in the map, were put
/// into it: what it held, and the entries.
pub proof fn lemma_with_entries<K, V>(acc: Map<K, V>, entries: Seq<(K, V)>)
    requires
        distinct_keys(entries),
        forall|i: int| 0 <= i < entries.len() ==> !acc.contains_key((#[trigger] entries[i]).0),
    ensures
        forall|x: K| #[trigger]
            with_entries(acc, entries).contains_key(x) <==> acc.contains_key(x) || exists|i: int|
                0 <= i < entries.len() && (#[trigger] entries[i]).0 == x,
        forall|i: int|
            0 <= i < entries.len() ==> with_entries(acc, entries)[(#[trigger] entries[i]).0]
                == entries[i].1,
        forall|x: K| acc.contains_key(x) ==> #[trigger] with_entries(acc, entries)[x] == acc[x],
    decreases entries.len(),
{
    if entries.len() > 0 {
        let others = entries.drop_first();
        let after = acc.insert(entries[0].0, entries[0].1);
        assert forall|i: int| 0 <= i < others.len() implies !after.contains_key(
            (#[trigger] others[i]).0,
        ) by {
            assert(others[i] == entries[i + 1]);
        }
        assert(distinct_keys(others)) by {
            assert forall|i: int, j: int| 0 <= i < j < others.len() implies (#[trigger] others[i]).0
                != (#[trigger] others[j]).0 by {
                assert(others[i] == entries[i + 1]);
                assert(others[j] == entries[j + 1]);
            }
        }
        lemma_with_entries(after, others);
        let all = with_entries(acc, entries);
        assert(all == with_entries(after, others));
        assert forall|x: K| #[trigger] all.contains_key(x) <==> acc.contains_key(x) || exists|i: int|
            0 <= i < entries.len() && (#[trigger] entries[i]).0 == x by {
            if all.contains_key(x) && !acc.contains_key(x) {
                if x == entries[0].0 {
                } else {
                    let i = choose|i: int| 0 <= i < others.len() && (#[trigger] others[i]).0 == x;
                    assert(others[i] == entries[i + 1]);
                }
            }
            if exists|i: int| 0 <= i < entries.len() && (#[trigger] entries[i]).0 == x {
                let i = choose|i: int| 0 <= i < entries.len() && (#[trigger] entries[i]).0 == x;
                if i > 0 {
                    assert(others[i - 1] == entries[i]);
                }
            }
        }
        assert forall|i: int| 0 <= i < entries.len() implies all[(#[trigger] entries[i]).0]
            == entries[i].1 by {
            if i > 0 {
                assert(others[i - 1] == entries[i]);
            }
        }
    }
}

/// The entries of a map, in whatever order, have distinct models of keys, and make up
/// the model of the map.
pub proof fn lemma_entry_order_models<K: Wire, V: Wire>(order: Seq<(K, V)>, m: Map<K, V>)
    requires
        lists_entries(order, m),
        model_injective::<K>(),
    ensures
        distinct_keys(models_of(order)),
        with_entries(Map::empty(), models_of(order)) == map_model(m),
{
    let models = models_of(order);
    assert forall|i: int, j: int| 0 <= i < j < models.len() implies (#[trigger] models[i]).0 != (
    #[trigger] models[j]).0 by {
        assert(order[i].0 != order[j].0);
        assert(models[i].0 == order[i].0.model());
        assert(models[j].0 == order[j].0.model());
    }
    lemma_with_entries(Map::<K::Model, V::Model>::empty(), models);
    let all = with_entries(Map::<K::Model, V::Model>::empty(), models);
    assert forall|km: K::Model| #[trigger] all.contains_key(km) <==> map_model(m).contains_key(
        km,
    ) by {
        if all.contains_key(km) {
            let i = choose|i: int| 0 <= i < models.len() && (#[trigger] models[i]).0 == km;
            assert(m.contains_key(order[i].0) && order[i].0.model() == km);
        }
        if map_model(m).contains_key(km) {
            let k = choose|k: K| m.contains_key(k) && #[trigger] k.model() == km;
            let i = choose|i: int| 0 <= i < order.len() && (#[trigger] order[i]).0 == k;
            assert(models[i].0 == km);
        }
    }
    assert forall|km: K::Model| #[trigger] all.contains_key(km) implies all[km] == map_model(
        m,
    )[km] by {
        let i = choose|i: int| 0 <= i < models.len() && (#[trigger] models[i]).0 == km;
        assert(m.contains_key(order[i].0) && order[i].0.model() == km);
        let k = choose|k: K| m.contains_key(k) && #[trigger] k.model() == km;
        assert(k == order[i].0);
        assert(all[models[i].0] == models[i].1);
    }
    assert(all =~= map_model(m));
}

/// Decoding undoes encoding for maps, whatever order the encoder took: the encoding of
/// the entries of a map in any order, with whatever bytes behind it, decodes to the model
/// of the map.
pub proof fn lemma_map_round_trips_in_any_order<K, V>(
    m: Map<K, V>,
    order: Seq<(K, V)>,
    rest: Seq<u8>,
) where K: Marshal + UnMarshal + Hash + Eq, V: Marshal + UnMarshal + Debug
    requires
        round_trips::<K>(),
        round_trips::<V>(),
        model_injective::<K>(),
        lists_entries(order, m),
        representable_entries::<K, V>(models_of(order)),
        order.len() <= usize::MAX,
    ensures
        HashMap::<K, V>::decode(entries_encoding::<K, V>(models_of(order)) + rest) == (Decoded {
            outcome: Ok(map_model(m)),
            used: entries_encoding::<K, V>(models_of(order)).len(),
        }),
{
    lemma_entry_order_models(order, m);
    lemma_map_round_trip::<K, V>(models_of(order), rest);
}

} // verus!
