use lazy_marshal::composite::marshal_unit_variant;
use lazy_marshal::composite::marshal_variant;
use lazy_marshal::composite::plan_enum;
use lazy_marshal::composite::plan_variant;
use lazy_marshal::composite::unmarshal_variant_index;
use lazy_marshal::composite::Rejection;
use lazy_marshal::composite::VariantPlan;
use lazy_marshal::composite::VariantShape;
use lazy_marshal::composite::MAX_VARIANTS;
use lazy_marshal::prelude::Marshal;
use lazy_marshal::prelude::MarshalError;
use lazy_marshal::prelude::MarshalIterator;
use lazy_marshal::prelude::UnMarshal;
use lazy_marshal::prelude::Wire;
use std::collections::HashMap;

#[test]
fn variant_is_index_then_value() {
    assert_eq!(marshal_unit_variant(2).collect::<Vec<u8>>(), vec![2]);
    assert_eq!(
        marshal_variant(1, 0x0403u16).collect::<Vec<u8>>(),
        vec![1, 3, 4]
    );
    assert_eq!(
        marshal_variant(0, ("a".to_string(), 5u8)).collect::<Vec<u8>>(),
        vec![0, 1, 0, 0, 0, 0, 0, 0, 0, 97, 5]
    );
}

#[test]
fn variant_index_is_checked_against_the_count() {
    assert_eq!(unmarshal_variant_index(&mut vec![2u8, 9].into_iter(), 3).unwrap(), 2);
    assert_eq!(unmarshal_variant_index(&mut vec![255u8].into_iter(), 256).unwrap(), 255);
    let mut cursor = vec![3u8, 9].into_iter();
    match unmarshal_variant_index(&mut cursor, 3) {
        Err(MarshalError::InvalidData(message)) => assert_eq!(message, "Invalid enum varient: 3"),
        other => panic!("{other:?}"),
    }
    assert_eq!(cursor.collect::<Vec<u8>>(), vec![9]);
    assert!(matches!(
        unmarshal_variant_index(&mut vec![0u8].into_iter(), 0),
        Err(MarshalError::InvalidData(_))
    ));
    assert!(matches!(
        unmarshal_variant_index(&mut Vec::new().into_iter(), 3),
        Err(MarshalError::InvalidSizedDecode(0))
    ));
}

#[test]
fn variants_are_planned_by_their_shape() {
    assert_eq!(
        plan_variant(0, VariantShape::Unit),
        Ok(VariantPlan { index: 0, payload: false })
    );
    assert_eq!(
        plan_variant(255, VariantShape::Unnamed(1)),
        Ok(VariantPlan { index: 255, payload: true })
    );
    assert_eq!(
        plan_variant(1, VariantShape::Unnamed(2)),
        Err(Rejection::NotOneUnnamedField)
    );
    assert_eq!(
        plan_variant(1, VariantShape::Unnamed(0)),
        Err(Rejection::NotOneUnnamedField)
    );
    assert_eq!(plan_variant(1, VariantShape::Named), Err(Rejection::NamedFields));
    assert_eq!(
        plan_variant(MAX_VARIANTS, VariantShape::Unit),
        Err(Rejection::TooManyVariants)
    );
}

#[test]
fn rejections_tell_their_reason() {
    assert_eq!(Rejection::NamedFields.message(), "Named fields are not supported");
    assert_eq!(
        Rejection::NotOneUnnamedField.message(),
        "Only single unnamed fields are supported"
    );
    assert_eq!(
        Rejection::TooManyVariants.message(),
        "Only enums of up to 256 variants are supported"
    );
}

#[test]
fn enums_are_planned_in_declaration_order() {
    let shapes = vec![
        VariantShape::Unnamed(1),
        VariantShape::Unnamed(1),
        VariantShape::Unit,
    ];
    assert_eq!(
        plan_enum(&shapes),
        Ok(vec![
            VariantPlan { index: 0, payload: true },
            VariantPlan { index: 1, payload: true },
            VariantPlan { index: 2, payload: false },
        ])
    );
    assert_eq!(plan_enum(&Vec::new()), Ok(Vec::new()));
    assert_eq!(
        plan_enum(&vec![VariantShape::Unit, VariantShape::Named, VariantShape::Unnamed(3)]),
        Err(Rejection::NamedFields)
    );
    assert_eq!(plan_enum(&vec![VariantShape::Unit; 256]).unwrap().len(), 256);
    assert_eq!(
        plan_enum(&vec![VariantShape::Unit; 257]),
        Err(Rejection::TooManyVariants)
    );
}

#[derive(Debug, Clone, PartialEq, Eq, Hash)]
struct Key {
    region: u16,
    name: String,
}

impl Wire for Key {
    type Model = ();
}

impl Marshal for Key {
    fn marshal(self) -> MarshalIterator {
        self.region.marshal().chain(self.name.marshal())
    }
}

impl UnMarshal for Key {
    fn unmarshal<I: Iterator<Item = u8>>(data: &mut I) -> Result<Self, MarshalError> {
        Ok(Self {
            region: UnMarshal::unmarshal(data)?,
            name: UnMarshal::unmarshal(data)?,
        })
    }
}

#[derive(Debug, Clone, PartialEq)]
struct Ledger {
    notes: Vec<Option<String>>,
    totals: HashMap<Key, u64>,
    closed: bool,
}

impl Wire for Ledger {
    type Model = ();
}

impl Marshal for Ledger {
    fn marshal(self) -> MarshalIterator {
        self.notes
            .marshal()
            .chain(self.totals.marshal())
            .chain(self.closed.marshal())
    }
}

impl UnMarshal for Ledger {
    fn unmarshal<I: Iterator<Item = u8>>(data: &mut I) -> Result<Self, MarshalError> {
        Ok(Self {
            notes: UnMarshal::unmarshal(data)?,
            totals: UnMarshal::unmarshal(data)?,
            closed: UnMarshal::unmarshal(data)?,
        })
    }
}

#[test]
fn nested_record_round_trips() {
    let mut totals = HashMap::new();
    totals.insert(Key { region: 1, name: "north".to_string() }, 10);
    totals.insert(Key { region: 2, name: "south".to_string() }, 20);
    totals.insert(Key { region: 1, name: "south".to_string() }, 30);
    let ledger = Ledger {
        notes: vec![Some("first".to_string()), None, Some(String::new())],
        totals,
        closed: true,
    };
    let bytes = ledger.clone().marshal().collect::<Vec<u8>>();
    let mut cursor = bytes.into_iter();
    assert_eq!(Ledger::unmarshal(&mut cursor).unwrap(), ledger);
    assert_eq!(cursor.next(), None);
}

#[test]
fn record_is_its_fields_in_order() {
    let key = Key { region: 0x0201, name: "k".to_string() };
    assert_eq!(
        key.clone().marshal().collect::<Vec<u8>>(),
        vec![1, 2, 1, 0, 0, 0, 0, 0, 0, 0, 107]
    );
    assert_eq!(
        key.marshal().collect::<Vec<u8>>(),
        (0x0201u16, "k".to_string()).marshal().collect::<Vec<u8>>()
    );
}
