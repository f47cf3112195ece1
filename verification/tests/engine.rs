use anytype_friend::{
    IntoProstValue, ObjectDescription, ObjectSpec, ObjectTypeSpec, ProstConversionError,
    ProstStruct, ProstValue, RelationFormat, RelationSpec, RelationValue, Space, SpaceError,
};


fn empty_space() -> Space {
    Space::new("test-space".to_string())
}

fn relation_record(id: &str, name: &str, key: &str, format_code: f64) -> ProstStruct {
    ProstStruct::from_fields(vec![
        ("layout".to_string(), (5.0f64).to_bits().into_prost()),
        ("id".to_string(), id.to_string().into_prost()),
        ("name".to_string(), name.to_string().into_prost()),
        ("relationKey".to_string(), key.to_string().into_prost()),
        ("relationFormat".to_string(), format_code.to_bits().into_prost()),
    ])
}

fn hidden_relation_record(id: &str, name: &str, key: &str, format_code: f64) -> ProstStruct {
    ProstStruct::from_fields(vec![
        ("layout".to_string(), (5.0f64).to_bits().into_prost()),
        ("id".to_string(), id.to_string().into_prost()),
        ("name".to_string(), name.to_string().into_prost()),
        ("relationKey".to_string(), key.to_string().into_prost()),
        ("relationFormat".to_string(), format_code.to_bits().into_prost()),
        ("isHidden".to_string(), true.into_prost()),
    ])
}

#[test]
fn obtain_relation_creates_then_finds_the_same_relation() {
    let mut space = empty_space();
    let spec = RelationSpec { name: "Due date".to_string(), format: RelationFormat::Date };
    assert_eq!(space.record_count(), 0);
    let first = space.obtain_relation(&spec).unwrap();
    assert_eq!(space.record_count(), 1);
    let second = space.obtain_relation(&spec).unwrap();
    assert_eq!(space.record_count(), 1, "the second obtain must not create again");
    assert_eq!(first.id().as_str(), second.id().as_str());
}

#[test]
fn get_relation_finds_a_created_relation_and_rejects_another_format() {
    let mut space = empty_space();
    let spec = RelationSpec { name: "Due date".to_string(), format: RelationFormat::Date };
    let created = space.obtain_relation(&spec).unwrap();
    let found = space.get_relation(&spec).unwrap();
    match found {
        Some(rel) => assert_eq!(rel.id().as_str(), created.id().as_str()),
        None => panic!("the created relation must be found"),
    }
    let wrong = RelationSpec { name: "Due date".to_string(), format: RelationFormat::Text };
    match space.get_relation(&wrong) {
        Err(SpaceError::FormatMismatch { name, expected, received }) => {
            assert_eq!(name, "Due date");
            assert!(expected.format_eq(&RelationFormat::Date));
            assert!(received.format_eq(&RelationFormat::Text));
        }
        other => panic!("expected a format mismatch, got {:?}", other),
    }
}

#[test]
fn relation_names_match_without_regard_to_ascii_case() {
    let mut space = empty_space();
    let upper = RelationSpec { name: "Due date".to_string(), format: RelationFormat::Date };
    let created = space.obtain_relation(&upper).unwrap();
    let lower = RelationSpec { name: "due date".to_string(), format: RelationFormat::Date };
    let found = space.obtain_relation(&lower).unwrap();
    assert_eq!(space.record_count(), 1);
    assert_eq!(created.id().as_str(), found.id().as_str());
    assert_eq!(found.name(), "Due date");
}

#[test]
fn two_relations_of_one_name_are_ambiguous() {
    let mut space = empty_space();
    space.add_record(relation_record("r1", "Tag", "k1", 0.0));
    space.add_record(relation_record("r2", "Tag", "k2", 0.0));
    let spec = RelationSpec { name: "Tag".to_string(), format: RelationFormat::Text };
    match space.get_relation(&spec) {
        Err(SpaceError::AmbiguousEntity { name }) => assert_eq!(name, "Tag"),
        other => panic!("expected ambiguity, got {:?}", other),
    }
}

#[test]
fn hidden_relations_never_appear_in_search_results() {
    let mut space = empty_space();
    space.add_record(hidden_relation_record("r1", "Secret", "k1", 0.0));
    let spec = RelationSpec { name: "Secret".to_string(), format: RelationFormat::Text };
    assert!(space.get_relation(&spec).unwrap().is_none());
    space.add_record(relation_record("r2", "Secret", "k2", 0.0));
    let found = space.get_relation(&spec).unwrap().unwrap();
    assert_eq!(found.id().as_str(), "r2", "only the visible relation is found");
}

#[test]
fn a_seeded_relation_record_round_trips_through_get() {
    let mut space = empty_space();
    space.add_record(relation_record("rel-9", "Priority", "key-9", 2.0));
    let spec = RelationSpec { name: "Priority".to_string(), format: RelationFormat::Number };
    let rel = space.get_relation(&spec).unwrap().unwrap();
    assert_eq!(rel.id().as_str(), "rel-9");
    assert_eq!(rel.name(), "Priority");
    assert_eq!(rel.key().as_str(), "key-9");
    assert!(rel.format().format_eq(&RelationFormat::Number));
}

#[test]
fn obtain_object_type_creates_its_relations_too() {
    let mut space = empty_space();
    let spec = ObjectTypeSpec {
        name: "Bookmark".to_string(),
        recommended_relations: vec![
            RelationSpec { name: "Tag".to_string(), format: RelationFormat::Text },
            RelationSpec { name: "Description".to_string(), format: RelationFormat::Text },
            RelationSpec { name: "Source".to_string(), format: RelationFormat::Url },
        ],
    };
    let ty = space.obtain_object_type(&spec).unwrap();
    assert_eq!(ty.name(), "Bookmark");
    assert_eq!(ty.recommended_relations().len(), 3);
    // three relation records plus the type record
    assert_eq!(space.record_count(), 4);
    let again = space.obtain_object_type(&spec).unwrap();
    assert_eq!(space.record_count(), 4, "the second obtain must not create again");
    assert_eq!(ty.id().as_str(), again.id().as_str());
}

#[test]
fn object_type_with_missing_relation_is_a_mismatch() {
    let mut space = empty_space();
    let full = ObjectTypeSpec {
        name: "Bookmark".to_string(),
        recommended_relations: vec![
            RelationSpec { name: "Tag".to_string(), format: RelationFormat::Text },
            RelationSpec { name: "Description".to_string(), format: RelationFormat::Text },
            RelationSpec { name: "Source".to_string(), format: RelationFormat::Url },
        ],
    };
    space.obtain_object_type(&full).unwrap();
    let partial = ObjectTypeSpec {
        name: "Bookmark".to_string(),
        recommended_relations: vec![
            RelationSpec { name: "Tag".to_string(), format: RelationFormat::Text },
            RelationSpec { name: "Description".to_string(), format: RelationFormat::Text },
        ],
    };
    match space.get_object_type(&partial) {
        Err(SpaceError::RecommendedRelationsMismatch { name }) => assert_eq!(name, "Bookmark"),
        other => panic!("expected a relations mismatch, got {:?}", other),
    }
}

#[test]
fn object_type_relation_order_does_not_matter() {
    let mut space = empty_space();
    let forward = ObjectTypeSpec {
        name: "Note".to_string(),
        recommended_relations: vec![
            RelationSpec { name: "Tag".to_string(), format: RelationFormat::Text },
            RelationSpec { name: "Source".to_string(), format: RelationFormat::Url },
        ],
    };
    space.obtain_object_type(&forward).unwrap();
    let reversed = ObjectTypeSpec {
        name: "Note".to_string(),
        recommended_relations: vec![
            RelationSpec { name: "Source".to_string(), format: RelationFormat::Url },
            RelationSpec { name: "Tag".to_string(), format: RelationFormat::Text },
        ],
    };
    assert!(space.get_object_type(&reversed).unwrap().is_some());
}

#[test]
fn object_create_then_fetch_by_name_and_type() {
    let mut space = empty_space();
    let ty = space
        .obtain_object_type(&ObjectTypeSpec {
            name: "TestType".to_string(),
            recommended_relations: vec![],
        })
        .unwrap();
    let spec = ObjectSpec { ty: ty.clone(), name: "Test Object".to_string() };
    let created = space.obtain_object(&spec).unwrap();
    assert_eq!(created.name(), "Test Object");
    assert_eq!(created.type_id().as_str(), ty.id().as_str());
    let fetched = space.get_object(&spec).unwrap().unwrap();
    assert_eq!(fetched.id().as_str(), created.id().as_str());
    let resolved = fetched.ty(&space).unwrap();
    assert_eq!(resolved.id().as_str(), ty.id().as_str());
}

#[test]
fn object_text_relation_round_trips_byte_for_byte() {
    let mut space = empty_space();
    let rel = space
        .obtain_relation(&RelationSpec {
            name: "Greeting".to_string(),
            format: RelationFormat::Text,
        })
        .unwrap();
    let ty = space
        .obtain_object_type(&ObjectTypeSpec {
            name: "TestType".to_string(),
            recommended_relations: vec![],
        })
        .unwrap();
    let created = space
        .create_object(ObjectDescription {
            ty,
            name: "Test Object".to_string(),
            relations: vec![(rel.clone(), RelationValue::Text("hello".to_string()))],
        })
        .unwrap();
    match created.get(&space, &rel).unwrap() {
        Some(RelationValue::Text(s)) => assert_eq!(s, "hello"),
        other => panic!("expected the text back, got {:?}", other),
    }
}

#[test]
fn object_rejects_a_value_of_the_wrong_format() {
    let mut space = empty_space();
    let number_rel = space
        .obtain_relation(&RelationSpec {
            name: "Number Relation Test".to_string(),
            format: RelationFormat::Number,
        })
        .unwrap();
    let ty = space
        .obtain_object_type(&ObjectTypeSpec {
            name: "TestType".to_string(),
            recommended_relations: vec![],
        })
        .unwrap();
    let result = space.create_object(ObjectDescription {
        ty,
        name: "Test Object".to_string(),
        relations: vec![(number_rel, RelationValue::Text("text!".to_string()))],
    });
    match result {
        Err(SpaceError::IncompatibleValue(e)) => {
            assert!(e.expected().format_eq(&RelationFormat::Number));
            assert!(e.received().format_eq(&RelationFormat::Text));
        }
        other => panic!("expected an incompatible value, got {:?}", other),
    }
}

#[test]
fn all_basic_relation_formats_round_trip_through_set_and_get() {
    let mut space = empty_space();
    let ty = space
        .obtain_object_type(&ObjectTypeSpec {
            name: "TestType".to_string(),
            recommended_relations: vec![],
        })
        .unwrap();
    let obj = space
        .obtain_object(&ObjectSpec { ty, name: "Test Object".to_string() })
        .unwrap();

    let cases: Vec<(&str, RelationFormat, RelationValue)> = vec![
        ("Text Relation Test", RelationFormat::Text, RelationValue::Text("text!".to_string())),
        (
            "Number Relation Test",
            RelationFormat::Number,
            RelationValue::Number((10.5f64).to_bits()),
        ),
        ("Date Relation Test", RelationFormat::Date, RelationValue::Date(1700000000)),
        ("Checkbox Relation Test", RelationFormat::Checkbox, RelationValue::Checkbox(true)),
        (
            "Url Relation Test",
            RelationFormat::Url,
            RelationValue::Url("https://gamediary.dev".to_string()),
        ),
        (
            "Email Relation Test",
            RelationFormat::Email,
            RelationValue::Email("cool@email.me".to_string()),
        ),
        (
            "Phone Relation Test",
            RelationFormat::Phone,
            RelationValue::Phone("(555)555-5555".to_string()),
        ),
    ];
    for (name, format, value) in cases {
        let rel = space
            .obtain_relation(&RelationSpec { name: name.to_string(), format })
            .unwrap();
        let previous = obj.set(&mut space, &rel, value.clone()).unwrap();
        assert!(previous.is_none(), "no previous value for {}", name);
        let fetched = space.get_object(&ObjectSpec {
            ty: obj.ty(&space).unwrap(),
            name: "Test Object".to_string(),
        });
        let refreshed = fetched.unwrap().unwrap();
        match (refreshed.get(&space, &rel).unwrap(), value) {
            (Some(RelationValue::Text(a)), RelationValue::Text(b)) => assert_eq!(a, b),
            (Some(RelationValue::Number(a)), RelationValue::Number(b)) => assert_eq!(a, b),
            (Some(RelationValue::Date(a)), RelationValue::Date(b)) => assert_eq!(a, b),
            (Some(RelationValue::Checkbox(a)), RelationValue::Checkbox(b)) => assert_eq!(a, b),
            (Some(RelationValue::Url(a)), RelationValue::Url(b)) => assert_eq!(a, b),
            (Some(RelationValue::Email(a)), RelationValue::Email(b)) => assert_eq!(a, b),
            (Some(RelationValue::Phone(a)), RelationValue::Phone(b)) => assert_eq!(a, b),
            (got, want) => panic!("value for {} came back as {:?}, wanted {:?}", name, got, want),
        }
    }
}

#[test]
fn set_rejects_a_mismatched_value_and_reports_it() {
    let mut space = empty_space();
    let email_rel = space
        .obtain_relation(&RelationSpec {
            name: "Email Relation Test".to_string(),
            format: RelationFormat::Email,
        })
        .unwrap();
    let ty = space
        .obtain_object_type(&ObjectTypeSpec {
            name: "TestType".to_string(),
            recommended_relations: vec![],
        })
        .unwrap();
    let obj = space
        .obtain_object(&ObjectSpec { ty, name: "Test Object".to_string() })
        .unwrap();
    match obj.set(&mut space, &email_rel, RelationValue::Text("text!".to_string())) {
        Err(SpaceError::IncompatibleValue(e)) => {
            assert!(e.expected().format_eq(&RelationFormat::Email));
            assert!(e.received().format_eq(&RelationFormat::Text));
        }
        other => panic!("expected an incompatible value, got {:?}", other),
    }
    // the valid value still goes through afterwards
    let ok = obj.set(&mut space, &email_rel, RelationValue::Email("sneaky@email.com".to_string()));
    assert!(ok.is_ok());
}

#[test]
fn set_on_an_object_from_another_space_reports_the_unknown_id() {
    let mut space = empty_space();
    let rel = space
        .obtain_relation(&RelationSpec {
            name: "Greeting".to_string(),
            format: RelationFormat::Text,
        })
        .unwrap();
    let ty = space
        .obtain_object_type(&ObjectTypeSpec {
            name: "TestType".to_string(),
            recommended_relations: vec![],
        })
        .unwrap();
    let obj = space
        .obtain_object(&ObjectSpec { ty, name: "Test Object".to_string() })
        .unwrap();
    let mut other_space = Space::new("another-space".to_string());
    match obj.set(&mut other_space, &rel, RelationValue::Text("hi".to_string())) {
        Err(SpaceError::UnknownObject { id }) => assert_eq!(id, obj.id().as_str()),
        other => panic!("expected an unknown object, got {:?}", other),
    }
}

#[test]
fn object_relations_resolve_referenced_objects() {
    let mut space = empty_space();
    let ty = space
        .obtain_object_type(&ObjectTypeSpec {
            name: "ObjectTypeRelationTest".to_string(),
            recommended_relations: vec![],
        })
        .unwrap();
    let sample1 = space
        .obtain_object(&ObjectSpec { ty: ty.clone(), name: "SampleObject".to_string() })
        .unwrap();
    let sample2 = space
        .obtain_object(&ObjectSpec { ty: ty.clone(), name: "SampleObject 2".to_string() })
        .unwrap();
    let rel = space
        .obtain_relation(&RelationSpec {
            name: "ObjectRelationTest".to_string(),
            format: RelationFormat::Object { types: vec![ty.id()] },
        })
        .unwrap();
    let holder = space
        .obtain_object(&ObjectSpec { ty, name: "Test Object".to_string() })
        .unwrap();
    holder
        .set(
            &mut space,
            &rel,
            RelationValue::Object(vec![sample1.clone(), sample2.clone()]),
        )
        .unwrap();
    let refreshed = space
        .get_object(&ObjectSpec {
            ty: holder.ty(&space).unwrap(),
            name: "Test Object".to_string(),
        })
        .unwrap()
        .unwrap();
    match refreshed.get(&space, &rel).unwrap() {
        Some(RelationValue::Object(objs)) => {
            assert_eq!(objs.len(), 2);
            let mut ids: Vec<String> = objs.iter().map(|o| o.id().as_str().to_string()).collect();
            ids.sort();
            let mut want = vec![
                sample1.id().as_str().to_string(),
                sample2.id().as_str().to_string(),
            ];
            want.sort();
            assert_eq!(ids, want);
        }
        other => panic!("expected the referenced objects, got {:?}", other),
    }
}

#[test]
fn object_relation_of_the_wrong_type_set_is_rejected() {
    let mut space = empty_space();
    let correct = space
        .obtain_object_type(&ObjectTypeSpec {
            name: "CorrectObjectType".to_string(),
            recommended_relations: vec![],
        })
        .unwrap();
    let wrong = space
        .obtain_object_type(&ObjectTypeSpec {
            name: "WrongObjectType".to_string(),
            recommended_relations: vec![],
        })
        .unwrap();
    let rel = space
        .obtain_relation(&RelationSpec {
            name: "ObjectRelationTest".to_string(),
            format: RelationFormat::Object { types: vec![correct.id()] },
        })
        .unwrap();
    let sample = space
        .obtain_object(&ObjectSpec { ty: wrong.clone(), name: "SampleObject".to_string() })
        .unwrap();
    let holder = space
        .obtain_object(&ObjectSpec { ty: correct, name: "Test Object".to_string() })
        .unwrap();
    match holder.set(&mut space, &rel, RelationValue::Object(vec![sample])) {
        Err(SpaceError::IncompatibleValue(_)) => (),
        other => panic!("expected an incompatible value, got {:?}", other),
    }
}

#[test]
fn obtain_object_does_not_conflate_types_sharing_a_name() {
    let mut space = empty_space();
    let ty_a = space
        .obtain_object_type(&ObjectTypeSpec {
            name: "TypeA".to_string(),
            recommended_relations: vec![],
        })
        .unwrap();
    let ty_b = space
        .obtain_object_type(&ObjectTypeSpec {
            name: "TypeB".to_string(),
            recommended_relations: vec![],
        })
        .unwrap();
    let a = space
        .obtain_object(&ObjectSpec { ty: ty_a, name: "Shared".to_string() })
        .unwrap();
    let b = space
        .obtain_object(&ObjectSpec { ty: ty_b, name: "Shared".to_string() })
        .unwrap();
    assert_ne!(a.id().as_str(), b.id().as_str());
}

#[test]
fn two_object_types_of_one_name_are_ambiguous() {
    let mut space = empty_space();
    let type_record = |id: &str, key: &str| {
        ProstStruct::from_fields(vec![
            ("layout".to_string(), (4.0f64).to_bits().into_prost()),
            ("id".to_string(), id.to_string().into_prost()),
            ("name".to_string(), "Bookmark".to_string().into_prost()),
            ("uniqueKey".to_string(), key.to_string().into_prost()),
            ("recommendedRelations".to_string(), Vec::<ProstValue>::new().into_prost()),
        ])
    };
    space.add_record(type_record("t1", "uk1"));
    space.add_record(type_record("t2", "uk2"));
    let spec = ObjectTypeSpec { name: "Bookmark".to_string(), recommended_relations: vec![] };
    match space.get_object_type(&spec) {
        Err(SpaceError::AmbiguousEntity { name }) => assert_eq!(name, "Bookmark"),
        other => panic!("expected ambiguity, got {:?}", other),
    }
}

#[test]
fn object_format_supersets_follow_the_allowed_sets() {
    let mut space = empty_space();
    let ty_a = space
        .obtain_object_type(&ObjectTypeSpec {
            name: "TypeA".to_string(),
            recommended_relations: vec![],
        })
        .unwrap();
    let ty_b = space
        .obtain_object_type(&ObjectTypeSpec {
            name: "TypeB".to_string(),
            recommended_relations: vec![],
        })
        .unwrap();
    let wildcard = RelationFormat::Object { types: vec![] };
    let narrow = RelationFormat::Object { types: vec![ty_a.id()] };
    let both = RelationFormat::Object { types: vec![ty_a.id(), ty_b.id()] };
    assert!(wildcard.is_superset(&narrow), "the wildcard accepts any allowed set");
    assert!(narrow.is_superset(&narrow), "the rule is reflexive");
    assert!(both.is_superset(&narrow), "a wider allowed set accepts a narrower one");
    assert!(
        !narrow.is_superset(&both),
        "a narrower allowed set does not accept a strictly wider one"
    );
}

#[test]
fn an_object_value_for_an_allowed_type_is_accepted() {
    let mut space = empty_space();
    let ty = space
        .obtain_object_type(&ObjectTypeSpec {
            name: "TestType".to_string(),
            recommended_relations: vec![],
        })
        .unwrap();
    let rel = space
        .obtain_relation(&RelationSpec {
            name: "Links".to_string(),
            format: RelationFormat::Object { types: vec![] },
        })
        .unwrap();
    let target = space
        .obtain_object(&ObjectSpec { ty: ty.clone(), name: "Target".to_string() })
        .unwrap();
    let holder = space
        .obtain_object(&ObjectSpec { ty, name: "Holder".to_string() })
        .unwrap();
    let previous = holder
        .set(&mut space, &rel, RelationValue::Object(vec![target]))
        .unwrap();
    assert!(previous.is_none());
}

#[test]
fn a_set_value_replaces_the_stored_one_and_returns_the_snapshot() {
    let mut space = empty_space();
    let rel = space
        .obtain_relation(&RelationSpec {
            name: "Note".to_string(),
            format: RelationFormat::Text,
        })
        .unwrap();
    let ty = space
        .obtain_object_type(&ObjectTypeSpec {
            name: "TestType".to_string(),
            recommended_relations: vec![],
        })
        .unwrap();
    let obj = space
        .obtain_object(&ObjectSpec { ty: ty.clone(), name: "Test Object".to_string() })
        .unwrap();
    obj.set(&mut space, &rel, RelationValue::Text("We can create objects!".to_string())).unwrap();
    let refreshed = space
        .get_object(&ObjectSpec { ty, name: "Test Object".to_string() })
        .unwrap()
        .unwrap();
    let previous = refreshed
        .set(&mut space, &rel, RelationValue::Text("an update!!!".to_string()))
        .unwrap();
    match previous {
        Some(RelationValue::Text(s)) => assert_eq!(s, "We can create objects!"),
        other => panic!("expected the earlier text, got {:?}", other),
    }
    let latest = space
        .get_object(&ObjectSpec {
            ty: refreshed.ty(&space).unwrap(),
            name: "Test Object".to_string(),
        })
        .unwrap()
        .unwrap();
    match latest.get(&space, &rel).unwrap() {
        Some(RelationValue::Text(s)) => assert_eq!(s, "an update!!!"),
        other => panic!("expected the update, got {:?}", other),
    }
}

#[test]
fn obtain_object_is_idempotent() {
    let mut space = empty_space();
    let ty = space
        .obtain_object_type(&ObjectTypeSpec {
            name: "TestType".to_string(),
            recommended_relations: vec![],
        })
        .unwrap();
    let spec = ObjectSpec { ty, name: "TestObject".to_string() };
    let first = space.obtain_object(&spec).unwrap();
    let count = space.record_count();
    let second = space.obtain_object(&spec).unwrap();
    assert_eq!(space.record_count(), count, "the second obtain must not create again");
    assert_eq!(first.id().as_str(), second.id().as_str());
}

#[test]
fn reading_a_malformed_stored_value_reports_the_conversion() {
    let mut space = empty_space();
    space.add_record(relation_record("rel-1", "Broken", "key-broken", 2.0));
    let rel = space
        .get_relation(&RelationSpec {
            name: "Broken".to_string(),
            format: RelationFormat::Number,
        })
        .unwrap()
        .unwrap();
    let ty = space
        .obtain_object_type(&ObjectTypeSpec {
            name: "TestType".to_string(),
            recommended_relations: vec![],
        })
        .unwrap();
    // A record whose stored value under the relation key is a text where
    // the declared format expects a number, and another with an empty slot.
    space.add_record(ProstStruct::from_fields(vec![
        ("layout".to_string(), (0.0f64).to_bits().into_prost()),
        ("id".to_string(), "obj-1".to_string().into_prost()),
        ("name".to_string(), "Odd".to_string().into_prost()),
        ("type".to_string(), ty.id().as_str().to_string().into_prost()),
        ("key-broken".to_string(), "not a number".to_string().into_prost()),
    ]));
    let odd = space
        .get_object(&ObjectSpec { ty: ty.clone(), name: "Odd".to_string() })
        .unwrap()
        .unwrap();
    match odd.get(&space, &rel) {
        Err(SpaceError::Conversion(ProstConversionError::IncorrectKind { .. })) => (),
        other => panic!("expected a kind mismatch, got {:?}", other),
    }
    space.add_record(ProstStruct::from_fields(vec![
        ("layout".to_string(), (0.0f64).to_bits().into_prost()),
        ("id".to_string(), "obj-2".to_string().into_prost()),
        ("name".to_string(), "Odder".to_string().into_prost()),
        ("type".to_string(), ty.id().as_str().to_string().into_prost()),
        ("key-broken".to_string(), ProstValue { kind: None }),
    ]));
    let odder = space
        .get_object(&ObjectSpec { ty, name: "Odder".to_string() })
        .unwrap()
        .unwrap();
    match odder.get(&space, &rel) {
        Err(SpaceError::Conversion(ProstConversionError::KindIsEmpty)) => (),
        other => panic!("expected an empty slot report, got {:?}", other),
    }
}
