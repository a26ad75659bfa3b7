use lazy_marshal::prelude::Marshal;
use lazy_marshal::prelude::MarshalError;
use lazy_marshal::prelude::UnMarshal;
use std::collections::HashMap;

fn is_sized(res: Result<impl Sized, MarshalError>, count: usize) -> bool {
    matches!(res, Err(MarshalError::InvalidSizedDecode(n)) if n == count)
}

#[test]
fn cut_short_numbers_report_the_bytes_that_were_there() {
    assert!(is_sized(u8::unmarshal(&mut Vec::new().into_iter()), 0));
    assert!(is_sized(u16::unmarshal(&mut vec![1u8].into_iter()), 1));
    assert!(is_sized(u32::unmarshal(&mut vec![1u8, 2].into_iter()), 2));
    assert!(is_sized(u64::unmarshal(&mut vec![1u8; 7].into_iter()), 7));
    assert!(is_sized(u128::unmarshal(&mut vec![1u8; 15].into_iter()), 15));
    assert!(is_sized(usize::unmarshal(&mut vec![1u8; 3].into_iter()), 3));
    assert!(is_sized(i8::unmarshal(&mut Vec::new().into_iter()), 0));
    assert!(is_sized(i16::unmarshal(&mut vec![1u8].into_iter()), 1));
    assert!(is_sized(i32::unmarshal(&mut vec![1u8; 3].into_iter()), 3));
    assert!(is_sized(i64::unmarshal(&mut vec![1u8; 4].into_iter()), 4));
    assert!(is_sized(i128::unmarshal(&mut vec![1u8; 9].into_iter()), 9));
    assert!(is_sized(isize::unmarshal(&mut vec![1u8; 7].into_iter()), 7));
    assert!(is_sized(bool::unmarshal(&mut Vec::new().into_iter()), 0));
    assert!(is_sized(char::unmarshal(&mut vec![65u8, 0, 0].into_iter()), 3));
}

#[test]
fn cut_short_number_takes_what_was_there() {
    let mut cursor = vec![1u8, 2, 3].into_iter();
    assert!(is_sized(u32::unmarshal(&mut cursor), 3));
    assert_eq!(cursor.next(), None);
}

#[test]
fn bool_tag_names_the_byte() {
    let mut cursor = vec![23u8, 64].into_iter();
    match bool::unmarshal(&mut cursor) {
        Err(MarshalError::InvalidData(message)) => assert_eq!(
            message,
            "Found '23' when unmarshalling a bool. Should be either 0 (false) or 1 (true)"
        ),
        other => panic!("{other:?}"),
    }
    assert_eq!(cursor.collect::<Vec<u8>>(), vec![64]);
    match bool::unmarshal(&mut vec![255u8].into_iter()) {
        Err(MarshalError::InvalidData(message)) => assert_eq!(
            message,
            "Found '255' when unmarshalling a bool. Should be either 0 (false) or 1 (true)"
        ),
        other => panic!("{other:?}"),
    }
    match bool::unmarshal(&mut vec![2u8].into_iter()) {
        Err(MarshalError::InvalidData(message)) => assert_eq!(
            message,
            "Found '2' when unmarshalling a bool. Should be either 0 (false) or 1 (true)"
        ),
        other => panic!("{other:?}"),
    }
}

#[test]
fn option_tag_names_the_byte() {
    let mut cursor = vec![100u8, 1, 2].into_iter();
    match Option::<u8>::unmarshal(&mut cursor) {
        Err(MarshalError::InvalidData(message)) => assert_eq!(
            message,
            "Found '100' when unmarshalling the option. Should be either 0 or 1"
        ),
        other => panic!("{other:?}"),
    }
    assert_eq!(cursor.collect::<Vec<u8>>(), vec![1, 2]);
}

#[test]
fn option_fails_as_its_value_fails() {
    assert!(is_sized(Option::<u32>::unmarshal(&mut vec![1u8, 9, 9].into_iter()), 2));
    assert!(is_sized(Option::<u32>::unmarshal(&mut Vec::new().into_iter()), 0));
}

#[test]
fn char_outside_the_code_points_is_invalid() {
    for code in [0xd800u32, 0xdfff, 0x110000, u32::MAX] {
        assert!(matches!(
            char::unmarshal(&mut code.marshal()),
            Err(MarshalError::InvalidDecode)
        ));
    }
}

#[test]
fn text_cut_short_reports_the_bytes_that_were_there() {
    let mut bytes = 5usize.marshal().collect::<Vec<u8>>();
    bytes.extend([104, 105]);
    assert!(is_sized(String::unmarshal(&mut bytes.into_iter()), 2));
    assert!(is_sized(String::unmarshal(&mut vec![3u8, 0, 0].into_iter()), 3));
}

#[test]
fn text_with_a_huge_length_fails_at_once() {
    let mut bytes = usize::MAX.marshal().collect::<Vec<u8>>();
    bytes.extend([1, 2, 3]);
    assert!(is_sized(String::unmarshal(&mut bytes.into_iter()), 3));
}

#[test]
fn text_that_is_not_utf8_is_invalid() {
    let mut bad = 3usize.marshal().collect::<Vec<u8>>();
    bad.extend([b'a', 0xff, b'b']);
    assert!(is_sized(String::unmarshal(&mut bad.into_iter()), 1));

    let mut surrogate = 3usize.marshal().collect::<Vec<u8>>();
    surrogate.extend([0xed, 0xa0, 0x80]);
    assert!(is_sized(String::unmarshal(&mut surrogate.into_iter()), 1));

    let mut unfinished = 2usize.marshal().collect::<Vec<u8>>();
    unfinished.extend([b'a', 0xc3]);
    assert!(matches!(
        String::unmarshal(&mut unfinished.into_iter()),
        Err(MarshalError::InvalidDecode)
    ));
}

#[test]
fn list_stops_at_the_first_item_that_fails() {
    let mut bytes = 3usize.marshal().collect::<Vec<u8>>();
    bytes.extend([1, 7, 0, 9]);
    let mut cursor = bytes.into_iter();
    assert!(matches!(
        Vec::<bool>::unmarshal(&mut cursor),
        Err(MarshalError::InvalidData(_))
    ));
    assert_eq!(cursor.collect::<Vec<u8>>(), vec![0, 9]);

    let mut short = 3usize.marshal().collect::<Vec<u8>>();
    short.extend([1, 0, 2, 0, 3]);
    assert!(is_sized(Vec::<u16>::unmarshal(&mut short.into_iter()), 1));
}

#[test]
fn list_with_a_huge_count_fails_at_once() {
    let mut bytes = usize::MAX.marshal().collect::<Vec<u8>>();
    bytes.extend([1, 2, 3]);
    assert!(is_sized(Vec::<u16>::unmarshal(&mut bytes.into_iter()), 1));
}

#[test]
fn tuple_stops_at_the_first_component_that_fails() {
    let mut cursor = vec![1u8, 5, 9, 9].into_iter();
    assert!(matches!(
        <(u8, bool, u16)>::unmarshal(&mut cursor),
        Err(MarshalError::InvalidData(_))
    ));
    assert_eq!(cursor.collect::<Vec<u8>>(), vec![9, 9]);
}

#[test]
fn map_with_a_repeated_key_is_refused() {
    let mut map = HashMap::new();
    map.insert(b'A', 1u8);
    map.insert(b'B', 2u8);
    let mut bytes = map.marshal().collect::<Vec<u8>>();
    assert_eq!(bytes.len(), 12);
    let first_key = bytes[8];
    bytes[10] = first_key;
    match HashMap::<u8, u8>::unmarshal(&mut bytes.into_iter()) {
        Err(MarshalError::InvalidData(message)) => {
            assert!(message.starts_with("Duplicate Key while decoding HashMap: "))
        }
        other => panic!("{other:?}"),
    }
}

#[test]
fn map_names_the_value_that_the_key_had() {
    let bytes = vec![2u8, 0, 0, 0, 0, 0, 0, 0, 5, 11, 5, 22, 77];
    let mut cursor = bytes.into_iter();
    match HashMap::<u8, u8>::unmarshal(&mut cursor) {
        Err(MarshalError::InvalidData(message)) => {
            assert_eq!(message, "Duplicate Key while decoding HashMap: 11")
        }
        other => panic!("{other:?}"),
    }
    assert_eq!(cursor.collect::<Vec<u8>>(), vec![77]);
}

#[test]
fn map_fails_as_its_entries_fail() {
    let bytes = vec![2u8, 0, 0, 0, 0, 0, 0, 0, 5, 1, 6];
    assert!(is_sized(HashMap::<u8, bool>::unmarshal(&mut bytes.into_iter()), 0));
    let bytes = vec![1u8, 0, 0, 0, 0, 0, 0, 0, 5, 9];
    assert!(matches!(
        HashMap::<u8, bool>::unmarshal(&mut bytes.into_iter()),
        Err(MarshalError::InvalidData(_))
    ));
    assert!(is_sized(HashMap::<u8, bool>::unmarshal(&mut vec![1u8].into_iter()), 1));
}

#[test]
fn errors_are_built_from_their_causes() {
    assert!(matches!(
        MarshalError::from_utf8_error_len(Some(2)),
        MarshalError::InvalidSizedDecode(2)
    ));
    assert!(matches!(
        MarshalError::from_utf8_error_len(None),
        MarshalError::InvalidDecode
    ));
    match MarshalError::variant_tag(7) {
        MarshalError::InvalidData(message) => assert_eq!(message, "Invalid enum varient: 7"),
        other => panic!("{other:?}"),
    }
    match MarshalError::option_tag(42) {
        MarshalError::InvalidData(message) => assert_eq!(
            message,
            "Found '42' when unmarshalling the option. Should be either 0 or 1"
        ),
        other => panic!("{other:?}"),
    }
}
