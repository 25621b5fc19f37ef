use minitel::value::{
    are_well_formed, find_key, has_distinct_keys, insert_entry, is_well_formed, new_entries,
    ConfigValue,
};
use minitel::yaml::{
    join_documents, parse_documents, to_yaml_manifest, to_yaml_stream, to_yaml_text, written,
    ManifestError,
};

fn text(s: &str) -> ConfigValue {
    ConfigValue::String(s.to_string())
}

fn mapping(entries: Vec<(&str, ConfigValue)>) -> ConfigValue {
    ConfigValue::Mapping(entries.into_iter().map(|(k, v)| (k.to_string(), v)).collect())
}

#[test]
fn constructors_build_the_four_shapes() {
    assert_eq!(ConfigValue::text("a"), ConfigValue::String("a".to_string()));
    assert_eq!(ConfigValue::owned_text("b".to_string()), ConfigValue::String("b".to_string()));
    assert_eq!(ConfigValue::integer(-3), ConfigValue::Int(-3));
    assert_eq!(ConfigValue::list(vec![text("x")]), ConfigValue::List(vec![text("x")]));
    assert_eq!(ConfigValue::singleton(text("x")), ConfigValue::List(vec![text("x")]));
    assert_eq!(
        ConfigValue::mapping(vec![("k".to_string(), text("v"))]),
        mapping(vec![("k", text("v"))])
    );
}

#[test]
fn last_write_for_a_key_wins_and_keeps_its_place() {
    let mut entries = new_entries();
    insert_entry(&mut entries, "a", ConfigValue::Int(1));
    insert_entry(&mut entries, "b", ConfigValue::Int(2));
    insert_entry(&mut entries, "a", ConfigValue::Int(3));
    assert_eq!(
        entries,
        vec![("a".to_string(), ConfigValue::Int(3)), ("b".to_string(), ConfigValue::Int(2))]
    );
    assert_eq!(find_key(&entries, "a"), Some(0));
    assert_eq!(find_key(&entries, "b"), Some(1));
    assert_eq!(find_key(&entries, "c"), None);
}

#[test]
fn repeated_keys_are_found_out() {
    let entries = vec![("a".to_string(), ConfigValue::Int(1)), ("a".to_string(), ConfigValue::Int(2))];
    assert_eq!(find_key(&entries, "a"), Some(0));
    assert!(!has_distinct_keys(&entries));
    assert!(has_distinct_keys(&new_entries()));
}

#[test]
fn get_reads_the_first_entry_of_a_mapping() {
    let doc = mapping(vec![("a", ConfigValue::Int(1)), ("b", text("x"))]);
    assert_eq!(doc.get("a"), Some(&ConfigValue::Int(1)));
    assert_eq!(doc.get("b"), Some(&text("x")));
    assert_eq!(doc.get("c"), None);
    assert_eq!(text("a").get("a"), None);
    assert_eq!(ConfigValue::List(vec![]).get("a"), None);
}

#[test]
fn well_formed_documents_have_distinct_keys_at_every_depth() {
    assert!(is_well_formed(&text("a")));
    assert!(is_well_formed(&mapping(vec![("a", text("x")), ("b", text("y"))])));
    assert!(!is_well_formed(&mapping(vec![("a", text("x")), ("a", text("y"))])));
    let nested = ConfigValue::List(vec![mapping(vec![(
        "outer",
        mapping(vec![("k", text("x")), ("k", text("y"))]),
    )])]);
    assert!(!is_well_formed(&nested));
    assert!(are_well_formed(&vec![text("a"), ConfigValue::Int(1)]));
    assert!(!are_well_formed(&vec![text("a"), nested]));
}

#[test]
fn scalars_are_written_as_yaml() {
    assert_eq!(to_yaml_text(&text("hello")).unwrap(), "---\nhello\n");
    assert_eq!(to_yaml_text(&text("8080")).unwrap(), "---\n\"8080\"\n");
    assert_eq!(to_yaml_text(&text("")).unwrap(), "---\n\"\"\n");
    assert_eq!(to_yaml_text(&ConfigValue::Int(8080)).unwrap(), "---\n8080\n");
    assert_eq!(to_yaml_text(&ConfigValue::Int(-2147483648)).unwrap(), "---\n-2147483648\n");
}

#[test]
fn mapping_is_written_in_insertion_order() {
    let doc = mapping(vec![("zeta", ConfigValue::Int(1)), ("alpha", ConfigValue::Int(2)), ("mid", text("x"))]);
    assert_eq!(to_yaml_text(&doc).unwrap(), "---\nzeta: 1\nalpha: 2\nmid: x\n");
}

#[test]
fn empty_collections_are_written_inline() {
    assert_eq!(to_yaml_text(&ConfigValue::List(vec![])).unwrap(), "---\n[]\n");
    assert_eq!(to_yaml_text(&mapping(vec![])).unwrap(), "---\n{}\n");
}

#[test]
fn document_with_a_repeated_key_is_not_written() {
    let doc = mapping(vec![("a", text("x")), ("a", text("y"))]);
    assert_eq!(to_yaml_text(&doc), Err(ManifestError::DuplicateKey));
    assert_eq!(to_yaml_manifest(&text("ok"), &doc), Err(ManifestError::DuplicateKey));
    assert_eq!(to_yaml_stream(&vec![text("ok"), doc]), Err(ManifestError::DuplicateKey));
}

#[test]
fn two_documents_are_written_one_after_the_other() {
    let manifest = to_yaml_manifest(&mapping(vec![("a", ConfigValue::Int(1))]), &text("b")).unwrap();
    assert_eq!(manifest, "---\na: 1\n---\nb\n");
    assert_eq!(join_documents("---\nx\n".to_string(), "---\ny\n"), "---\nx\n---\ny\n");
}

#[test]
fn stream_separates_documents_with_an_end_marker() {
    assert_eq!(to_yaml_stream(&vec![]).unwrap(), "");
    assert_eq!(to_yaml_stream(&vec![text("a")]).unwrap(), "---\na\n");
    assert_eq!(
        to_yaml_stream(&vec![text("a"), ConfigValue::Int(2), mapping(vec![("k", text("v"))])]).unwrap(),
        "---\na\n...\n---\n2\n...\n---\nk: v\n"
    );
}

#[test]
fn written_documents_are_read_back_unchanged() {
    let doc = mapping(vec![
        ("name", text("front: end")),
        ("port", ConfigValue::Int(-7)),
        ("digits", text("0123")),
        ("items", ConfigValue::List(vec![text("a"), ConfigValue::Int(2), ConfigValue::List(vec![])])),
        ("nested", mapping(vec![("inner", mapping(vec![])), ("text", text("true"))])),
    ]);
    let written = to_yaml_text(&doc).unwrap();
    assert_eq!(parse_documents(&written).unwrap(), vec![doc]);
}

#[test]
fn documents_are_read_in_the_order_of_the_text() {
    let docs = parse_documents("a: 1\n---\n- x\n- 2\n---\nplain\n").unwrap();
    assert_eq!(
        docs,
        vec![
            mapping(vec![("a", ConfigValue::Int(1))]),
            ConfigValue::List(vec![text("x"), ConfigValue::Int(2)]),
            text("plain")
        ]
    );
    assert_eq!(parse_documents("").unwrap(), Vec::<ConfigValue>::new());
}

#[test]
fn integers_beyond_32_bits_are_not_documents() {
    assert_eq!(parse_documents("2147483647").unwrap(), vec![ConfigValue::Int(2147483647)]);
    assert_eq!(parse_documents("-2147483648").unwrap(), vec![ConfigValue::Int(-2147483648)]);
    assert_eq!(parse_documents("2147483648"), Err(ManifestError::Unsupported));
    assert_eq!(parse_documents("-2147483649"), Err(ManifestError::Unsupported));
    assert_eq!(parse_documents("18446744073709551615"), Err(ManifestError::Unsupported));
}

#[test]
fn values_of_other_shapes_are_not_documents() {
    assert_eq!(parse_documents("~"), Err(ManifestError::Unsupported));
    assert_eq!(parse_documents("- true"), Err(ManifestError::Unsupported));
    assert_eq!(parse_documents("a:\n  b: 1.5"), Err(ManifestError::Unsupported));
    assert_eq!(parse_documents("? [a, b]\n: c"), Err(ManifestError::Unsupported));
    assert_eq!(parse_documents("ok: 1\n---\nbad: false"), Err(ManifestError::Unsupported));
}

#[test]
fn text_that_is_no_yaml_is_not_read() {
    assert_eq!(parse_documents("a: [1, 2"), Err(ManifestError::Parse));
    assert_eq!(parse_documents("ok: 1\n---\na: b: c"), Err(ManifestError::Parse));
}

#[test]
fn error_of_the_writer_becomes_an_error_of_the_library() {
    let failure = serde_yaml::from_str::<i32>("not a number").unwrap_err();
    assert_eq!(written(Err(failure)), Err(ManifestError::Serialization));
    assert_eq!(written(Ok("---\nx\n".to_string())), Ok("---\nx\n".to_string()));
}

#[test]
fn stream_is_what_one_serializer_writes() {
    let docs = vec![
        mapping(vec![("kind", text("Ingress")), ("port", ConfigValue::Int(80))]),
        text("plain"),
        ConfigValue::List(vec![text("a"), ConfigValue::Int(2)]),
    ];
    let mut buffer = Vec::new();
    {
        let mut serializer = serde_yaml::Serializer::new(&mut buffer);
        for doc in parse_documents(&to_yaml_stream(&docs).unwrap()).unwrap() {
            let value: serde_yaml::Value = serde_yaml::from_str(&to_yaml_text(&doc).unwrap()).unwrap();
            serde::Serialize::serialize(&value, &mut serializer).unwrap();
        }
    }
    assert_eq!(to_yaml_stream(&docs).unwrap(), String::from_utf8(buffer).unwrap());
    assert_eq!(
        to_yaml_stream(&docs).unwrap(),
        "---\nkind: Ingress\nport: 80\n...\n---\nplain\n...\n---\n- a\n- 2\n"
    );
}
