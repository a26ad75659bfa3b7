//! `PhantomData`: a value without bytes.

use crate::stream::MarshalIterator;
use crate::traits::Marshal;
use crate::traits::Wire;
use std::marker::PhantomData;
use vstd::prelude::*;

verus! {

impl<T> Wire for PhantomData<T> {
    type Model = ();

    open spec fn model(&self) -> () {
        ()
    }
}

impl<T: Marshal> Marshal for PhantomData<T> {
    open spec fn obeys_marshal_spec() -> bool {
        true
    }

    open spec fn encoding(m: ()) -> Seq<u8> {
        Seq::empty()
    }

    fn marshal(self) -> (out: MarshalIterator) {
        MarshalIterator::empty()
    }
}

} // verus!
