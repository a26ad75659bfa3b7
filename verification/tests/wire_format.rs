use lazy_marshal::prelude::Marshal;
use lazy_marshal::prelude::UnMarshal;
use std::collections::HashMap;
use std::marker::PhantomData;

fn bytes_of<T: Marshal>(value: T) -> Vec<u8> {
    value.marshal().collect()
}

#[test]
fn u32_is_four_bytes_lowest_first() {
    assert_eq!(bytes_of(260u32), vec![4, 1, 0, 0]);
    assert_eq!(u32::unmarshal(&mut vec![4u8, 1, 0, 0].into_iter()).unwrap(), 260);
}

#[test]
fn unsigned_numbers_have_their_width() {
    assert_eq!(bytes_of(0xabu8), vec![0xab]);
    assert_eq!(bytes_of(0x1234u16), vec![0x34, 0x12]);
    assert_eq!(
        bytes_of(0x0102030405060708u64),
        vec![8, 7, 6, 5, 4, 3, 2, 1]
    );
    assert_eq!(
        bytes_of(0x0102030405060708090a0b0c0d0e0f10u128),
        vec![16, 15, 14, 13, 12, 11, 10, 9, 8, 7, 6, 5, 4, 3, 2, 1]
    );
    assert_eq!(bytes_of(u128::MAX), vec![0xff; 16]);
    assert_eq!(bytes_of(0u64), vec![0; 8]);
}

#[test]
fn signed_numbers_are_twos_complement() {
    assert_eq!(bytes_of(-1i8), vec![0xff]);
    assert_eq!(bytes_of(i8::MIN), vec![0x80]);
    assert_eq!(bytes_of(-2i32), vec![0xfe, 0xff, 0xff, 0xff]);
    assert_eq!(bytes_of(i16::MIN), vec![0x00, 0x80]);
    assert_eq!(bytes_of(i64::MAX), vec![0xff, 0xff, 0xff, 0xff, 0xff, 0xff, 0xff, 0x7f]);
    assert_eq!(bytes_of(-1i128), vec![0xff; 16]);
    let mut min = vec![0u8; 16];
    min[15] = 0x80;
    assert_eq!(bytes_of(i128::MIN), min);
}

#[test]
fn platform_width_numbers_are_eight_bytes() {
    assert_eq!(bytes_of(5usize), vec![5, 0, 0, 0, 0, 0, 0, 0]);
    assert_eq!(bytes_of(-5isize), vec![0xfb, 0xff, 0xff, 0xff, 0xff, 0xff, 0xff, 0xff]);
    assert_eq!(usize::unmarshal(&mut bytes_of(usize::MAX).into_iter()).unwrap(), usize::MAX);
    assert_eq!(isize::unmarshal(&mut bytes_of(isize::MIN).into_iter()).unwrap(), isize::MIN);
}

#[test]
fn every_integer_round_trips_at_its_bounds() {
    for n in [u8::MIN, 1, 127, 128, u8::MAX] {
        assert_eq!(u8::unmarshal(&mut n.marshal()).unwrap(), n);
    }
    for n in [u16::MIN, 255, 256, u16::MAX] {
        assert_eq!(u16::unmarshal(&mut n.marshal()).unwrap(), n);
    }
    for n in [u32::MIN, 65535, 65536, u32::MAX] {
        assert_eq!(u32::unmarshal(&mut n.marshal()).unwrap(), n);
    }
    for n in [u64::MIN, 1 << 40, u64::MAX] {
        assert_eq!(u64::unmarshal(&mut n.marshal()).unwrap(), n);
    }
    for n in [u128::MIN, 1 << 100, u128::MAX] {
        assert_eq!(u128::unmarshal(&mut n.marshal()).unwrap(), n);
    }
    for n in [i8::MIN, -1, 0, 1, i8::MAX] {
        assert_eq!(i8::unmarshal(&mut n.marshal()).unwrap(), n);
    }
    for n in [i16::MIN, -1, 0, 1, i16::MAX] {
        assert_eq!(i16::unmarshal(&mut n.marshal()).unwrap(), n);
    }
    for n in [i32::MIN, -1, 0, 1, i32::MAX] {
        assert_eq!(i32::unmarshal(&mut n.marshal()).unwrap(), n);
    }
    for n in [i64::MIN, -1, 0, 1, i64::MAX] {
        assert_eq!(i64::unmarshal(&mut n.marshal()).unwrap(), n);
    }
    for n in [i128::MIN, -1, 0, 1, i128::MAX] {
        assert_eq!(i128::unmarshal(&mut n.marshal()).unwrap(), n);
    }
    for n in [isize::MIN, -1, 0, 1, isize::MAX] {
        assert_eq!(isize::unmarshal(&mut n.marshal()).unwrap(), n);
    }
    for n in [usize::MIN, 1, usize::MAX] {
        assert_eq!(usize::unmarshal(&mut n.marshal()).unwrap(), n);
    }
}

#[test]
fn bool_is_one_byte() {
    assert_eq!(bytes_of(true), vec![1]);
    assert_eq!(bytes_of(false), vec![0]);
}

#[test]
fn char_is_its_code_point() {
    assert_eq!(bytes_of('A'), vec![65, 0, 0, 0]);
    assert_eq!(bytes_of('\u{10ffff}'), vec![0xff, 0xff, 0x10, 0]);
    for c in ['\0', 'a', '\u{d7ff}', '\u{e000}', '\u{1f609}', char::MAX] {
        assert_eq!(char::unmarshal(&mut c.marshal()).unwrap(), c);
    }
}

#[test]
fn text_is_length_then_utf8() {
    assert_eq!(
        bytes_of("hi".to_string()),
        vec![2, 0, 0, 0, 0, 0, 0, 0, 104, 105]
    );
    assert_eq!(bytes_of("hi"), vec![2, 0, 0, 0, 0, 0, 0, 0, 104, 105]);
    assert_eq!(
        bytes_of("\u{e9}"),
        vec![2, 0, 0, 0, 0, 0, 0, 0, 0xc3, 0xa9]
    );
    assert_eq!(bytes_of(String::new()), vec![0; 8]);
    assert_eq!(String::unmarshal(&mut vec![0u8; 8].into_iter()).unwrap(), "");
}

#[test]
fn option_is_tag_then_value() {
    assert_eq!(bytes_of(Some(7u8)), vec![1, 7]);
    assert_eq!(bytes_of(None::<u8>), vec![0]);
    assert_eq!(bytes_of(Some(Some(true))), vec![1, 1, 1]);
    assert_eq!(bytes_of(Some(None::<bool>)), vec![1, 0]);
    assert_eq!(
        Option::<Option<bool>>::unmarshal(&mut vec![1u8, 0].into_iter()).unwrap(),
        Some(None)
    );
}

#[test]
fn list_is_count_then_items() {
    assert_eq!(
        bytes_of(vec![1u16, 2]),
        vec![2, 0, 0, 0, 0, 0, 0, 0, 1, 0, 2, 0]
    );
    assert_eq!(bytes_of(Vec::<u64>::new()), vec![0; 8]);
    assert_eq!(
        bytes_of(vec![vec![9u8], vec![]]),
        vec![2, 0, 0, 0, 0, 0, 0, 0, 1, 0, 0, 0, 0, 0, 0, 0, 9, 0, 0, 0, 0, 0, 0, 0, 0]
    );
    let nested = vec![vec![Some(1i8), None], vec![], vec![Some(-1)]];
    assert_eq!(
        Vec::<Vec<Option<i8>>>::unmarshal(&mut nested.clone().marshal()).unwrap(),
        nested
    );
}

#[test]
fn borrowed_list_is_encoded_as_the_list() {
    let items = vec![3u32, 4, 5];
    assert_eq!(bytes_of(items.as_slice()), bytes_of(items.clone()));
    let texts = vec!["a".to_string(), "bc".to_string()];
    assert_eq!(bytes_of(texts.as_slice()), bytes_of(texts.clone()));
}

#[test]
fn tuple_is_its_components_in_order() {
    assert_eq!(bytes_of((1u8,)), vec![1]);
    assert_eq!(bytes_of((1u8, 0x0302u16)), vec![1, 2, 3]);
    assert_eq!(bytes_of((true, 2u8, Some(3u8))), vec![1, 2, 1, 3]);
    assert_eq!(
        bytes_of((1u8, 2u8, 3u8, 4u8, 5u8, 6u8, 7u8, 8u8)),
        vec![1, 2, 3, 4, 5, 6, 7, 8]
    );
    let t = (1u8, -2i16, 'x', "y".to_string(), Some(5u64), vec![6u8], false, 8usize);
    assert_eq!(
        <(u8, i16, char, String, Option<u64>, Vec<u8>, bool, usize)>::unmarshal(
            &mut t.clone().marshal()
        )
        .unwrap(),
        t
    );
    let t4 = (1u8, 2u16, 3u32, 4u64);
    assert_eq!(<(u8, u16, u32, u64)>::unmarshal(&mut t4.marshal()).unwrap(), t4);
    let t5 = (1u8, 2u16, 3u32, 4u64, 5i8);
    assert_eq!(<(u8, u16, u32, u64, i8)>::unmarshal(&mut t5.marshal()).unwrap(), t5);
    let t6 = (1u8, 2u16, 3u32, 4u64, 5i8, 6i16);
    assert_eq!(<(u8, u16, u32, u64, i8, i16)>::unmarshal(&mut t6.marshal()).unwrap(), t6);
    let t7 = (1u8, 2u16, 3u32, 4u64, 5i8, 6i16, 7i32);
    assert_eq!(
        <(u8, u16, u32, u64, i8, i16, i32)>::unmarshal(&mut t7.marshal()).unwrap(),
        t7
    );
}

#[test]
fn phantom_data_has_no_bytes() {
    assert_eq!(bytes_of(PhantomData::<u32>), Vec::<u8>::new());
}

#[test]
fn map_is_count_then_entries() {
    let mut one = HashMap::new();
    one.insert(7u8, 0x0201u16);
    assert_eq!(bytes_of(one), vec![1, 0, 0, 0, 0, 0, 0, 0, 7, 1, 2]);
    assert_eq!(bytes_of(HashMap::<u8, u8>::new()), vec![0; 8]);

    let mut two = HashMap::new();
    two.insert(1u8, 10u8);
    two.insert(2u8, 20u8);
    let bytes = bytes_of(two.clone());
    assert_eq!(bytes.len(), 12);
    assert_eq!(&bytes[..8], &[2, 0, 0, 0, 0, 0, 0, 0]);
    let entries = [&bytes[8..10], &bytes[10..12]];
    assert!(entries.contains(&&[1u8, 10][..]));
    assert!(entries.contains(&&[2u8, 20][..]));
    assert_eq!(HashMap::<u8, u8>::unmarshal(&mut bytes.into_iter()).unwrap(), two);
}

#[test]
fn map_decodes_from_either_order() {
    let ab = vec![2, 0, 0, 0, 0, 0, 0, 0, 1, 10, 2, 20];
    let ba = vec![2, 0, 0, 0, 0, 0, 0, 0, 2, 20, 1, 10];
    let mut expected = HashMap::new();
    expected.insert(1u8, 10u8);
    expected.insert(2u8, 20u8);
    assert_eq!(HashMap::<u8, u8>::unmarshal(&mut ab.into_iter()).unwrap(), expected);
    assert_eq!(HashMap::<u8, u8>::unmarshal(&mut ba.into_iter()).unwrap(), expected);
}

#[test]
fn decoding_takes_the_encoding_and_no_more() {
    let mut bytes = bytes_of((vec![Some("x".to_string()), None], 9u16));
    let len = bytes.len();
    bytes.extend([0xaa, 0xbb]);
    let mut cursor = bytes.into_iter();
    let value = <(Vec<Option<String>>, u16)>::unmarshal(&mut cursor).unwrap();
    assert_eq!(value, (vec![Some("x".to_string()), None], 9));
    assert_eq!(cursor.collect::<Vec<u8>>(), vec![0xaa, 0xbb]);
    assert_eq!(len, 8 + 1 + 8 + 1 + 1 + 2);
}
