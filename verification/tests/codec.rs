use anytype_friend::{
    IntoProstValue, Layout, ProstConversionError, ProstKind, ProstStruct, ProstValue,
    WireRelationFormat,
};

fn doc(fields: Vec<(String, ProstValue)>) -> ProstStruct {
    ProstStruct::from_fields(fields)
}

#[test]
fn take_returns_the_field_and_removes_it() {
    let mut d = doc(vec![("name".to_string(), "Task".to_string().into_prost())]);
    assert_eq!(d.len(), 1);
    let name: String = d.take("name").unwrap();
    assert_eq!(name, "Task");
    assert_eq!(d.len(), 0);
    let again: Result<String, ProstConversionError> = d.take("name");
    assert!(matches!(again, Err(ProstConversionError::MissingStructField(f)) if f == "name"));
}

#[test]
fn take_reports_a_missing_field() {
    let mut d = doc(vec![]);
    let r: Result<String, ProstConversionError> = d.take("title");
    assert!(matches!(r, Err(ProstConversionError::MissingStructField(f)) if f == "title"));
}

#[test]
fn take_reports_an_empty_slot() {
    let mut d = doc(vec![("x".to_string(), ProstValue { kind: None })]);
    let r: Result<String, ProstConversionError> = d.take("x");
    assert!(matches!(r, Err(ProstConversionError::KindIsEmpty)));
    assert_eq!(d.len(), 0);
}

#[test]
fn take_reports_a_kind_mismatch() {
    let mut d = doc(vec![("flag".to_string(), true.into_prost())]);
    let r: Result<String, ProstConversionError> = d.take("flag");
    match r {
        Err(ProstConversionError::IncorrectKind { expected, received }) => {
            assert_eq!(expected, ProstKind::Text);
            assert_eq!(received, ProstKind::Bool);
        }
        other => panic!("unexpected result: {:?}", other),
    }
}

#[test]
fn take_optional_yields_none_for_an_absent_field() {
    let mut d = doc(vec![("a".to_string(), 7u64.into_prost())]);
    let r: Option<bool> = d.take_optional("missing").unwrap();
    assert!(r.is_none());
    let present: Option<u64> = d.take_optional("a").unwrap();
    assert_eq!(present, Some(7u64));
}

#[test]
fn take_enum_truncates_the_number_toward_zero() {
    let mut d = doc(vec![("layout".to_string(), (5.9f64).to_bits().into_prost())]);
    let l: Layout = d.take_enum("layout").unwrap();
    assert!(matches!(l, Layout::Relation));
}

#[test]
fn take_enum_rejects_a_discriminant_outside_the_enum() {
    let mut d = doc(vec![("layout".to_string(), (3.0f64).to_bits().into_prost())]);
    let r: Result<Layout, ProstConversionError> = d.take_enum("layout");
    assert!(matches!(r, Err(ProstConversionError::InvalidEnumValue(3))));
}

#[test]
fn take_enum_rejects_an_unsupported_relation_format() {
    let mut d = doc(vec![("relationFormat".to_string(), (11.0f64).to_bits().into_prost())]);
    let r: Result<WireRelationFormat, ProstConversionError> = d.take_enum("relationFormat");
    assert!(matches!(r, Err(ProstConversionError::InvalidEnumValue(11))));
}

#[test]
fn take_enum_reads_the_object_format_discriminant() {
    let mut d = doc(vec![("relationFormat".to_string(), (100.0f64).to_bits().into_prost())]);
    let f: WireRelationFormat = d.take_enum("relationFormat").unwrap();
    assert!(matches!(f, WireRelationFormat::Object));
}

#[test]
fn take_enum_rejects_a_text_discriminant() {
    let mut d = doc(vec![("layout".to_string(), "five".to_string().into_prost())]);
    let r: Result<Layout, ProstConversionError> = d.take_enum("layout");
    match r {
        Err(ProstConversionError::IncorrectKind { expected, received }) => {
            assert_eq!(expected, ProstKind::Number);
            assert_eq!(received, ProstKind::Text);
        }
        other => panic!("unexpected result: {:?}", other),
    }
}

#[test]
fn insert_replaces_an_existing_field_in_place() {
    let mut d = doc(vec![
        ("a".to_string(), 1u64.into_prost()),
        ("b".to_string(), 2u64.into_prost()),
    ]);
    d.insert("a".to_string(), 9u64.into_prost());
    assert_eq!(d.len(), 2);
    let a: u64 = d.take("a").unwrap();
    assert_eq!(a, 9u64);
}

#[test]
fn negative_and_huge_discriminants_are_invalid() {
    let mut d = doc(vec![("layout".to_string(), (-2.7f64).to_bits().into_prost())]);
    let r: Result<Layout, ProstConversionError> = d.take_enum("layout");
    assert!(matches!(r, Err(ProstConversionError::InvalidEnumValue(-2))));
    let mut d2 = doc(vec![("layout".to_string(), (1.0e300f64).to_bits().into_prost())]);
    let r2: Result<Layout, ProstConversionError> = d2.take_enum("layout");
    assert!(matches!(r2, Err(ProstConversionError::InvalidEnumValue(i32::MAX))));
}
