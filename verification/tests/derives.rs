use lazy_marshal::composite::marshal_unit_variant;
use lazy_marshal::composite::marshal_variant;
use lazy_marshal::composite::unmarshal_variant_index;
use lazy_marshal::prelude::Marshal;
use lazy_marshal::prelude::MarshalError;
use lazy_marshal::prelude::MarshalIterator;
use lazy_marshal::prelude::UnMarshal;
use lazy_marshal::prelude::Wire;

#[derive(Clone, Debug)]
pub struct Thing<T: Marshal + UnMarshal> {
    a: Vec<Option<String>>,
    b: String,
    c: T,
}

impl<T: Marshal + UnMarshal> Wire for Thing<T> {
    type Model = ();
}

impl<T: Marshal + UnMarshal> Marshal for Thing<T> {
    fn marshal(self) -> MarshalIterator {
        self.a
            .marshal()
            .chain(self.b.marshal())
            .chain(self.c.marshal())
    }
}

impl<T: Marshal + UnMarshal> UnMarshal for Thing<T> {
    fn unmarshal<I: Iterator<Item = u8>>(data: &mut I) -> Result<Self, MarshalError> {
        Ok(Self {
            a: UnMarshal::unmarshal(data)?,
            b: UnMarshal::unmarshal(data)?,
            c: UnMarshal::unmarshal(data)?,
        })
    }
}

#[test]
fn test_struct() {
    let a = Thing {
        a: vec![Some("😉".to_string())],
        b: "Dancing cows".to_string(),
        c: Some(21),
    };
    let marshalled = a.clone().marshal().collect::<Vec<_>>();

    let unmarshalled = Thing::<Option<i32>>::unmarshal(&mut marshalled.iter().cloned()).unwrap();

    assert!(a.a == unmarshalled.a);
    assert!(a.b == unmarshalled.b);
    assert!(a.c == unmarshalled.c);
}

#[derive(Debug, Clone)]
enum TestEnum {
    Part1(u32),
    Part2((String, u64)),
    NoPart,
}

impl Wire for TestEnum {
    type Model = ();
}

impl Marshal for TestEnum {
    fn marshal(self) -> MarshalIterator {
        match self {
            Self::Part1(args) => marshal_variant(0, args),
            Self::Part2(args) => marshal_variant(1, args),
            Self::NoPart => marshal_unit_variant(2),
        }
    }
}

impl UnMarshal for TestEnum {
    fn unmarshal<I: Iterator<Item = u8>>(data: &mut I) -> Result<Self, MarshalError> {
        let variant = unmarshal_variant_index(data, 3)?;
        Ok(match variant {
            0 => Self::Part1(UnMarshal::unmarshal(data)?),
            1 => Self::Part2(UnMarshal::unmarshal(data)?),
            _ => Self::NoPart,
        })
    }
}

#[test]
fn test_enum() {
    let e = TestEnum::NoPart;
    assert!(
        if let TestEnum::NoPart = TestEnum::unmarshal(&mut e.marshal()).unwrap() {
            true
        } else {
            false
        }
    );

    let tuple = (format!("test string"), 69);
    let e = TestEnum::Part2(tuple.clone());
    assert!(
        if let TestEnum::Part2(v) = TestEnum::unmarshal(&mut e.marshal()).unwrap() {
            v == tuple
        } else {
            false
        }
    );
}
