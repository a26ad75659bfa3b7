use lazy_marshal::error::decimal_text;
use lazy_marshal::prelude::ByteStream;
use lazy_marshal::prelude::Marshal;
use lazy_marshal::prelude::MarshalError;
use lazy_marshal::prelude::MarshalIterator;
use lazy_marshal::prelude::Wire;
use lazy_marshal::readn_to_vec;
use lazy_marshal::Bytes;
use lazy_marshal::Chain;
use lazy_marshal::Either;
use std::cell::Cell;
use std::rc::Rc;

#[test]
fn bytes_yield_the_buffer_once() {
    let mut stream = Bytes::new(vec![1, 2]);
    assert_eq!(stream.pull(), Some(1));
    assert_eq!(stream.pull(), Some(2));
    assert_eq!(stream.pull(), None);
    assert_eq!(stream.pull(), None);
}

#[test]
fn chain_yields_the_first_then_the_second() {
    let mut stream = Chain {
        first: Bytes::new(vec![1]),
        second: Chain {
            first: Bytes::new(vec![]),
            second: Bytes::new(vec![2, 3]),
        },
    };
    let mut seen = Vec::new();
    while let Some(b) = stream.pull() {
        seen.push(b);
    }
    assert_eq!(seen, vec![1, 2, 3]);
    assert_eq!(stream.pull(), None);
}

#[test]
fn either_yields_the_live_stream() {
    let mut left: Either<Bytes, MarshalIterator> = Either::Left(Bytes::new(vec![4]));
    assert_eq!(left.pull(), Some(4));
    assert_eq!(left.pull(), None);
    let right: Either<Bytes, MarshalIterator> = Either::Right(MarshalIterator::from_vec(vec![5, 6]));
    assert_eq!(right.boxed().into_vec(), vec![5, 6]);
}

#[test]
fn marshal_iterator_is_an_iterator() {
    let stream = MarshalIterator::from_vec(vec![1, 2]).chain(MarshalIterator::empty());
    let stream = stream.chain(MarshalIterator::from_vec(vec![3]));
    assert_eq!(stream.collect::<Vec<u8>>(), vec![1, 2, 3]);
    assert_eq!(MarshalIterator::empty().next(), None);
    assert_eq!(MarshalIterator::from_vec(vec![9, 8]).into_vec(), vec![9, 8]);
    let boxed = Chain {
        first: Bytes::new(vec![7]),
        second: Bytes::new(vec![8]),
    }
    .boxed();
    assert_eq!(boxed.into_vec(), vec![7, 8]);
}

#[test]
fn readn_reads_the_bytes_asked_for() {
    let mut cursor = vec![1u8, 2, 3, 4].into_iter();
    assert_eq!(readn_to_vec(&mut cursor, 3), Ok(vec![1, 2, 3]));
    assert_eq!(readn_to_vec(&mut cursor, 0), Ok(vec![]));
    assert_eq!(readn_to_vec(&mut cursor, 2), Err(1));
    assert_eq!(cursor.next(), None);
    assert_eq!(readn_to_vec(&mut cursor, 1), Err(0));
}

#[test]
fn decimal_text_has_no_leading_zeros() {
    for n in [0u8, 7, 9, 10, 42, 99, 100, 101, 200, 255] {
        assert_eq!(decimal_text(n), format!("{n}"));
    }
}

#[derive(Clone)]
struct Counted {
    value: u8,
    encoded: Rc<Cell<usize>>,
}

impl Wire for Counted {
    type Model = ();
}

impl Marshal for Counted {
    fn marshal(self) -> MarshalIterator {
        self.encoded.set(self.encoded.get() + 1);
        self.value.marshal()
    }
}

#[test]
fn items_are_encoded_when_their_bytes_are_asked_for() {
    let encoded = Rc::new(Cell::new(0));
    let items: Vec<Counted> = (1..=3)
        .map(|value| Counted {
            value,
            encoded: encoded.clone(),
        })
        .collect();
    let mut stream = items.marshal();
    assert_eq!(encoded.get(), 0);
    for _ in 0..8 {
        stream.next();
    }
    assert_eq!(encoded.get(), 0);
    assert_eq!(stream.next(), Some(1));
    assert_eq!(encoded.get(), 1);
    assert_eq!(stream.next(), Some(2));
    assert_eq!(stream.next(), Some(3));
    assert_eq!(encoded.get(), 3);
    assert_eq!(stream.next(), None);
}

#[test]
fn reserved_error_is_never_returned() {
    let inputs: Vec<Vec<u8>> = vec![vec![], vec![2], vec![1, 2, 3], vec![0xff; 9]];
    for input in inputs {
        let results = [
            lazy_marshal::UnMarshal::unmarshal(&mut input.clone().into_iter()).map(|_: bool| ()),
            lazy_marshal::UnMarshal::unmarshal(&mut input.clone().into_iter()).map(|_: u32| ()),
            lazy_marshal::UnMarshal::unmarshal(&mut input.clone().into_iter()).map(|_: char| ()),
            lazy_marshal::UnMarshal::unmarshal(&mut input.clone().into_iter()).map(|_: String| ()),
            lazy_marshal::UnMarshal::unmarshal(&mut input.clone().into_iter())
                .map(|_: Option<u8>| ()),
            lazy_marshal::UnMarshal::unmarshal(&mut input.clone().into_iter())
                .map(|_: Vec<u8>| ()),
        ];
        for res in results {
            assert!(!matches!(res, Err(MarshalError::EarlyStreamEnd)));
        }
    }
}
