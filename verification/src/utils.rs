//! Reading a run of bytes from a cursor.

use crate::error::Fault;
use crate::traits::Decoded;
use vstd::prelude::*;
use vstd::std_specs::iter::IteratorSpec;

verus! {

/// What `input` decodes to as a run of `n` bytes: its first `n` bytes, or, where fewer
/// are there, the fault that counts them.
pub open spec fn decode_bytes(input: Seq<u8>, n: nat) -> Decoded<Seq<u8>> {
    if input.len() < n {
        Decoded { outcome: Err(Fault::InvalidSizedDecode(input.len() as usize)), used: input.len() }
    } else {
        Decoded { outcome: Ok(input.take(n as int)), used: n }
    }
}

/// Reads `n` bytes from `data`.
///
/// Where the cursor holds fewer than `n` bytes, the read takes them all and returns their
/// number as the error.
pub fn readn_to_vec<I: Iterator<Item = u8>>(data: &mut I, n: usize) -> (res: Result<
    Vec<u8>,
    usize,
>)
    ensures
        res matches Ok(v) ==> v@.len() == n,
        res matches Err(k) ==> k < n,
        (*old(data)).obeys_prophetic_iter_laws() ==> {
            &&& (*final(data)).obeys_prophetic_iter_laws()
            &&& match res {
                Ok(v) => {
                    &&& n <= (*old(data)).remaining().len()
                    &&& v@ == (*old(data)).remaining().take(n as int)
                    &&& (*final(data)).remaining() == (*old(data)).remaining().skip(n as int)
                },
                Err(k) => {
                    &&& k == (*old(data)).remaining().len()
                    &&& (*final(data)).remaining() == (*old(data)).remaining().skip(k as int)
                },
            }
        },
{
    let mut v: Vec<u8> = Vec::new();
    while v.len() < n
        invariant
            v@.len() <= n,
            (*data).obeys_prophetic_iter_laws() == (*old(data)).obeys_prophetic_iter_laws(),
            (*old(data)).obeys_prophetic_iter_laws() ==> {
                &&& v@.len() <= (*old(data)).remaining().len()
                &&& v@ == (*old(data)).remaining().take(v@.len() as int)
                &&& (*data).remaining() == (*old(data)).remaining().skip(v@.len() as int)
            },
        decreases n - v@.len(),
    {
        match data.next() {
            Some(d) => {
                v.push(d);
                assert((*old(data)).obeys_prophetic_iter_laws() ==> {
                    &&& v@ =~= (*old(data)).remaining().take(v@.len() as int)
                    &&& (*data).remaining() =~= (*old(data)).remaining().skip(v@.len() as int)
                });
            },
            None => {
                return Err(v.len());
            },
        }
    }
    Ok(v)
}

/// Skipping `a` bytes and then `b` more is skipping `a + b`.
pub proof fn lemma_skip_twice()
    ensures
        forall|input: Seq<u8>, a: int, b: int|
            0 <= a <= input.len() && 0 <= b <= input.len() - a ==> #[trigger] input.skip(a).skip(b)
                == input.skip(a + b),
{
    assert forall|input: Seq<u8>, a: int, b: int|
        0 <= a <= input.len() && 0 <= b <= input.len() - a implies #[trigger] input.skip(a).skip(b)
        == input.skip(a + b) by {
        assert(input.skip(a).skip(b) =~= input.skip(a + b));
    }
}

} // verus!
