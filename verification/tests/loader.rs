use mdbook_xmldoc::model::loader::{load_from, LoadDigest, LoadError};
use mdbook_xmldoc::model::{is_supported, ChildInternal};
use mdbook_xmldoc::schema::{Attribute, Child, FileRoot, Params, Tag};

fn plain_tag(id: &str, children: &[&str]) -> Tag {
    Tag {
        id: id.to_string(),
        description: format!("About {}", id),
        attributes: None,
        children: if children.is_empty() {
            None
        } else {
            Some(
                children
                    .iter()
                    .map(|name| Child { reference: name.to_string(), optional: None, multiple: None })
                    .collect(),
            )
        },
        value: None,
        example: None,
    }
}

fn file_root(version: &str, namespace: &str, tags: Vec<Tag>) -> FileRoot {
    FileRoot {
        schema: Params { version: version.to_string(), namespace: namespace.to_string() },
        tags,
    }
}

fn loaded(namespace: &str, tags: Vec<Tag>) -> LoadDigest {
    match load_from(file_root("r1", namespace, tags)) {
        Ok(digest) => digest,
        Err(error) => panic!("load failed: {:?}", error),
    }
}

fn warnings_of(digest: &LoadDigest) -> Vec<String> {
    digest.warning_list().to_vec()
}

#[test]
fn supported_version_ignores_case_and_space() {
    assert!(is_supported("r1"));
    assert!(is_supported("R1"));
    assert!(is_supported(" r1"));
    assert!(is_supported("\tR1 \n"));
    assert!(!is_supported("r2"));
    assert!(!is_supported("r 1"));
    assert!(!is_supported(""));
    assert!(!is_supported("r11"));
}

#[test]
fn load_builds_one_entry_per_tag() {
    let digest = loaded(
        "ex",
        vec![plain_tag("Root", &["Leaf", "Twig"]), plain_tag("Leaf", &[]), plain_tag("Twig", &[])],
    );
    let model = &digest.model;
    assert_eq!(model.len(), 3);
    assert_eq!(model.tags.len(), 3);
    assert_eq!(model.names.len(), 3);
    for (position, name) in ["Root", "Leaf", "Twig"].iter().enumerate() {
        let by_id = model.get(position).expect("tag by identifier");
        assert_eq!(by_id.id, position);
        assert_eq!(by_id.name, *name);
        assert_eq!(by_id.index(), position + 1);
        let by_name = model.get_by_name(name).expect("tag by name");
        assert_eq!(by_name.id, position);
        assert_eq!(by_name.name, *name);
    }
    assert!(model.get(3).is_none());
    assert!(model.get_by_name("Branch").is_none());
    assert!(model.get_by_name("root").is_none());
    assert!(!digest.has_warnings());
    assert_eq!(warnings_of(&digest), Vec::<String>::new());
}

#[test]
fn ordered_tags_follow_declaration() {
    let digest = loaded(
        "ex",
        vec![plain_tag("Zed", &["Alpha", "Mid"]), plain_tag("Alpha", &[]), plain_tag("Mid", &[])],
    );
    let ordered = digest.model.ordered();
    let names: Vec<&str> = ordered.iter().map(|tag| tag.name.as_str()).collect();
    assert_eq!(names, vec!["Zed", "Alpha", "Mid"]);
    let indices: Vec<usize> = ordered.iter().map(|tag| tag.index()).collect();
    assert_eq!(indices, vec![1, 2, 3]);
}

#[test]
fn every_resolved_child_has_its_parent_link() {
    let digest = loaded(
        "ex",
        vec![
            plain_tag("A", &["B", "C", "B"]),
            plain_tag("B", &["C"]),
            plain_tag("C", &[]),
            plain_tag("D", &["C", "A"]),
        ],
    );
    let model = &digest.model;
    assert_eq!(model.parents_of(0), vec![3]);
    assert_eq!(model.parents_of(1), vec![0, 0]);
    assert_eq!(model.parents_of(2), vec![0, 1, 3]);
    assert_eq!(model.parents_of(3), Vec::<usize>::new());
    assert_eq!(model.parents_of(4), Vec::<usize>::new());
    assert!(model.parents.contains_key(&0));
    assert!(!model.parents.contains_key(&3));
    assert_eq!(model.parents.len(), 3);
    for parent in 0..model.len() {
        for child in 0..model.len() {
            let references = model.tags[parent]
                .child_list()
                .iter()
                .filter(|c| matches!(c.reference, ChildInternal::Resolved { id } if id == child))
                .count();
            let links = model.parents_of(child).iter().filter(|p| **p == parent).count();
            assert_eq!(references, links);
        }
    }
    assert_eq!(warnings_of(&digest), Vec::<String>::new());
}

#[test]
fn children_are_resolved_by_name() {
    let digest = loaded("ex", vec![plain_tag("A", &["B", "Nowhere", "A"]), plain_tag("B", &[])]);
    let children = digest.model.tags[0].child_list();
    assert_eq!(children.len(), 3);
    assert!(matches!(children[0].reference, ChildInternal::Resolved { id: 1 }));
    assert!(matches!(&children[1].reference, ChildInternal::Unresolved { name } if name == "Nowhere"));
    assert!(matches!(children[2].reference, ChildInternal::Resolved { id: 0 }));
    assert_eq!(digest.model.tags[1].child_list().len(), 0);
}

#[test]
fn unresolved_reference_yields_one_warning() {
    let digest = loaded("ex", vec![plain_tag("X", &["Y"])]);
    assert!(digest.has_warnings());
    assert_eq!(warnings_of(&digest), vec!["unresolved child reference: X->Y".to_string()]);
    assert_eq!(digest.model.len(), 1);
    assert_eq!(digest.model.parents.len(), 0);
}

#[test]
fn pure_cycle_has_no_roots() {
    let digest = loaded("ex", vec![plain_tag("A", &["B"]), plain_tag("B", &["A"])]);
    assert_eq!(
        warnings_of(&digest),
        vec!["schema has no root tags, likely self-referential?".to_string()]
    );
    assert_eq!(digest.model.parents_of(0), vec![1]);
    assert_eq!(digest.model.parents_of(1), vec![0]);
}

#[test]
fn empty_tag_list_has_no_roots() {
    let digest = loaded("ex", vec![]);
    assert_eq!(digest.model.len(), 0);
    assert_eq!(
        warnings_of(&digest),
        vec!["schema has no root tags, likely self-referential?".to_string()]
    );
}

#[test]
fn disjoint_trees_have_several_roots() {
    let digest = loaded(
        "ex",
        vec![
            plain_tag("Second", &["Leaf"]),
            plain_tag("Leaf", &[]),
            plain_tag("First", &["Other"]),
            plain_tag("Other", &[]),
        ],
    );
    assert_eq!(
        warnings_of(&digest),
        vec!["schema has more than one root tag (2): Second, First".to_string()]
    );
}

#[test]
fn many_roots_are_counted_in_decimal() {
    let tags: Vec<Tag> = (0..12).map(|i| plain_tag(&format!("T{}", i), &[])).collect();
    let digest = loaded("ex", tags);
    assert_eq!(
        warnings_of(&digest),
        vec![
            "schema has more than one root tag (12): T0, T1, T2, T3, T4, T5, T6, T7, T8, T9, T10, T11"
                .to_string()
        ]
    );
}

#[test]
fn warnings_come_in_the_order_of_the_findings() {
    let digest = loaded(
        "",
        vec![
            plain_tag("A", &["Gone", "B", "Lost"]),
            plain_tag("B", &[]),
            plain_tag("C", &["Away"]),
        ],
    );
    assert_eq!(
        warnings_of(&digest),
        vec![
            "schema namespace must be a non-empty ascii sequence".to_string(),
            "unresolved child reference: A->Gone".to_string(),
            "unresolved child reference: A->Lost".to_string(),
            "unresolved child reference: C->Away".to_string(),
            "schema has more than one root tag (2): A, C".to_string(),
        ]
    );
}

#[test]
fn namespace_must_be_non_empty_ascii() {
    let empty = loaded("", vec![plain_tag("A", &[])]);
    assert_eq!(
        warnings_of(&empty),
        vec!["schema namespace must be a non-empty ascii sequence".to_string()]
    );
    let accented = loaded("\u{e9}x", vec![plain_tag("A", &[])]);
    assert_eq!(
        warnings_of(&accented),
        vec!["schema namespace must be a non-empty ascii sequence".to_string()]
    );
    assert_eq!(accented.model.namespace, "\u{e9}x");
    let fine = loaded("x-1 y", vec![plain_tag("A", &[])]);
    assert!(!fine.has_warnings());
}

#[test]
fn unsupported_version_yields_no_model() {
    match load_from(file_root("r2", "ex", vec![plain_tag("A", &[])])) {
        Err(LoadError::VersionUnsupported { found, expected }) => {
            assert_eq!(found, "r2");
            assert_eq!(expected, "r1");
        },
        other => panic!("unexpected result: {:?}", other.map(|_| ())),
    }
    match load_from(file_root("", "ex", vec![])) {
        Err(LoadError::VersionUnsupported { found, expected }) => {
            assert_eq!(found, "");
            assert_eq!(expected, "r1");
        },
        other => panic!("unexpected result: {:?}", other.map(|_| ())),
    }
}

#[test]
fn version_is_compared_lower_cased_and_trimmed() {
    assert!(load_from(file_root(" R1\n", "ex", vec![plain_tag("A", &[])])).is_ok());
    assert!(load_from(file_root("v1", "ex", vec![plain_tag("A", &[])])).is_err());
}

#[test]
fn version_gate_comes_before_the_name_check() {
    let tags = vec![plain_tag("A", &[]), plain_tag("A", &[])];
    assert!(matches!(
        load_from(file_root("r9", "ex", tags)),
        Err(LoadError::VersionUnsupported { .. })
    ));
}

#[test]
fn duplicate_name_is_a_typed_error() {
    let tags = vec![plain_tag("A", &[]), plain_tag("B", &[]), plain_tag("A", &[])];
    match load_from(file_root("r1", "ex", tags)) {
        Err(LoadError::DuplicateName { name }) => assert_eq!(name, "A"),
        other => panic!("unexpected result: {:?}", other.map(|_| ())),
    }
}

#[test]
fn first_repeated_name_is_reported() {
    let tags = vec![
        plain_tag("A", &[]),
        plain_tag("B", &[]),
        plain_tag("C", &[]),
        plain_tag("B", &[]),
        plain_tag("A", &[]),
    ];
    match load_from(file_root("r1", "ex", tags)) {
        Err(LoadError::DuplicateName { name }) => assert_eq!(name, "B"),
        other => panic!("unexpected result: {:?}", other.map(|_| ())),
    }
}

#[test]
fn names_differing_in_case_are_distinct() {
    let digest = loaded("ex", vec![plain_tag("a", &["A"]), plain_tag("A", &[])]);
    assert_eq!(digest.model.len(), 2);
    assert_eq!(digest.model.parents_of(1), vec![0]);
    assert!(!digest.has_warnings());
}

#[test]
fn texts_are_trimmed_and_names_kept() {
    let tag = Tag {
        id: " Spaced ".to_string(),
        description: "\n  Described.  \n".to_string(),
        attributes: Some(vec![
            Attribute {
                id: " key ".to_string(),
                brief: "  Brief. ".to_string(),
                description: Some("\tLong.\n".to_string()),
                expected: Some(" number ".to_string()),
                default: Some(" 0 ".to_string()),
                optional: Some(true),
            },
            Attribute {
                id: "bare".to_string(),
                brief: "Bare".to_string(),
                description: None,
                expected: None,
                default: None,
                optional: None,
            },
        ]),
        children: None,
        value: Some("  some text\n".to_string()),
        example: Some("  <Spaced/>  \n".to_string()),
    };
    let digest = loaded("ex", vec![tag]);
    let built = &digest.model.tags[0];
    assert_eq!(built.name, " Spaced ");
    assert_eq!(built.description, "Described.");
    assert_eq!(built.value.as_deref(), Some("some text"));
    assert_eq!(built.example.as_deref(), Some("  <Spaced/>  \n"));
    let attributes = built.attribute_list();
    assert_eq!(attributes.len(), 2);
    assert_eq!(attributes[0].name, " key ");
    assert_eq!(attributes[0].short_description, "Brief.");
    assert_eq!(attributes[0].long_description.as_deref(), Some("Long."));
    assert_eq!(attributes[0].expected_value.as_deref(), Some("number"));
    assert_eq!(attributes[0].default_value.as_deref(), Some("0"));
    assert!(attributes[0].is_optional);
    assert_eq!(attributes[1].name, "bare");
    assert_eq!(attributes[1].short_description, "Bare");
    assert_eq!(attributes[1].long_description, None);
    assert_eq!(attributes[1].expected_value, None);
    assert_eq!(attributes[1].default_value, None);
    assert!(!attributes[1].is_optional);
    assert!(digest.model.get_by_name(" Spaced ").is_some());
    assert!(digest.model.get_by_name("Spaced").is_none());
}

#[test]
fn child_flags_default_to_false() {
    let mut parent = plain_tag("P", &[]);
    parent.children = Some(vec![
        Child { reference: "C".to_string(), optional: None, multiple: None },
        Child { reference: "C".to_string(), optional: Some(true), multiple: Some(false) },
        Child { reference: "C".to_string(), optional: Some(false), multiple: Some(true) },
    ]);
    let digest = loaded("ex", vec![parent, plain_tag("C", &[])]);
    let children = digest.model.tags[0].child_list();
    let flags: Vec<(bool, bool)> =
        children.iter().map(|c| (c.is_optional, c.is_repeatable)).collect();
    assert_eq!(flags, vec![(false, false), (true, false), (false, true)]);
}

#[test]
fn absent_and_empty_lists_are_alike() {
    let mut tag = plain_tag("A", &[]);
    tag.attributes = Some(vec![]);
    tag.children = Some(vec![]);
    let digest = loaded("ex", vec![tag]);
    assert_eq!(digest.model.tags[0].attribute_list().len(), 0);
    assert_eq!(digest.model.tags[0].child_list().len(), 0);
    assert!(!digest.has_warnings());
}

#[test]
fn default_reference_names_nothing() {
    assert!(matches!(ChildInternal::default(), ChildInternal::Unresolved { name } if name.is_empty()));
}
