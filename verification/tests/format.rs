use anytype_friend::{NetworkMode, NetworkSync, RelationFormat, RelationValue};

#[test]
fn scalar_formats_are_supersets_of_themselves_only() {
    let all = vec![
        RelationFormat::Text,
        RelationFormat::Number,
        RelationFormat::Select,
        RelationFormat::MultiSelect,
        RelationFormat::Date,
        RelationFormat::FileOrMedia,
        RelationFormat::Checkbox,
        RelationFormat::Url,
        RelationFormat::Email,
        RelationFormat::Phone,
    ];
    for (i, a) in all.iter().enumerate() {
        for (j, b) in all.iter().enumerate() {
            assert_eq!(a.is_superset(b), i == j, "formats {:?} and {:?}", a, b);
        }
    }
}

#[test]
fn the_wildcard_object_format_accepts_every_object_format() {
    let wildcard = RelationFormat::Object { types: vec![] };
    assert!(wildcard.is_superset(&RelationFormat::Object { types: vec![] }));
    assert!(!wildcard.is_superset(&RelationFormat::Text));
}

#[test]
fn inferred_formats_follow_the_value_variants() {
    assert!(RelationValue::Text("x".to_string()).format().format_eq(&RelationFormat::Text));
    assert!(RelationValue::Number((4.5f64).to_bits()).format().format_eq(&RelationFormat::Number));
    assert!(RelationValue::Date(0).format().format_eq(&RelationFormat::Date));
    assert!(RelationValue::Checkbox(true).format().format_eq(&RelationFormat::Checkbox));
    assert!(RelationValue::Url("u".to_string()).format().format_eq(&RelationFormat::Url));
    assert!(RelationValue::Email("e".to_string()).format().format_eq(&RelationFormat::Email));
    assert!(RelationValue::Phone("p".to_string()).format().format_eq(&RelationFormat::Phone));
    let objs = RelationValue::Object(vec![]);
    assert!(objs.format().format_eq(&RelationFormat::Object { types: vec![] }));
}

#[test]
fn network_sync_settings_follow_the_policy() {
    assert!(!NetworkSync::Sync.disables_local_network_sync());
    assert!(!NetworkSync::LocalOnly.disables_local_network_sync());
    assert!(NetworkSync::NoSync.disables_local_network_sync());
    assert!(matches!(NetworkSync::Sync.network_mode(), NetworkMode::DefaultConfig));
    assert!(matches!(NetworkSync::LocalOnly.network_mode(), NetworkMode::LocalOnly));
    assert!(matches!(NetworkSync::NoSync.network_mode(), NetworkMode::LocalOnly));
}
