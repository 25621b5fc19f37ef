use minitel::tagger::{ensure_tag_config, tag_documents, tag_kube_config, TaggedConfig};
use minitel::value::ConfigValue;
use minitel::yaml::{parse_documents, to_yaml_text, ManifestError};

fn text(s: &str) -> ConfigValue {
    ConfigValue::String(s.to_string())
}

fn mapping(entries: Vec<(&str, ConfigValue)>) -> ConfigValue {
    ConfigValue::Mapping(entries.into_iter().map(|(k, v)| (k.to_string(), v)).collect())
}

fn labelled(labels: Vec<(&str, ConfigValue)>) -> ConfigValue {
    mapping(vec![
        ("kind", text("Ingress")),
        ("metadata", mapping(vec![("name", text("front")), ("labels", mapping(labels))])),
        ("spec", mapping(vec![("rules", ConfigValue::List(vec![]))])),
    ])
}

#[test]
fn document_without_metadata_is_left_unchanged() {
    let mut doc = mapping(vec![("kind", text("Namespace")), ("spec", mapping(vec![]))]);
    let before = to_yaml_text(&doc).unwrap();
    let outcome = tag_kube_config(&mut doc);
    assert_eq!(outcome, None);
    assert_eq!(doc, mapping(vec![("kind", text("Namespace")), ("spec", mapping(vec![]))]));
    assert_eq!(to_yaml_text(&doc).unwrap(), before);
}

#[test]
fn manifest_without_metadata_keeps_its_bytes_and_is_counted() {
    let manifest = "---\nkind: Namespace\nspec:\n  finalizers:\n    - kubernetes\n";
    let tagged = ensure_tag_config(manifest).unwrap();
    assert_eq!(tagged, TaggedConfig { text: manifest.to_string(), untagged: 1 });
}

#[test]
fn label_is_added_after_the_labels_that_are_there() {
    let mut doc = labelled(vec![("app", text("shop"))]);
    assert_eq!(tag_kube_config(&mut doc), Some(()));
    assert_eq!(doc, labelled(vec![("app", text("shop")), ("minitel-app", text("minitel"))]));
}

#[test]
fn label_is_added_to_empty_labels() {
    let mut doc = labelled(vec![]);
    assert_eq!(tag_kube_config(&mut doc), Some(()));
    assert_eq!(doc, labelled(vec![("minitel-app", text("minitel"))]));
}

#[test]
fn label_with_another_value_is_overwritten_in_place() {
    let mut doc = labelled(vec![("minitel-app", text("other")), ("app", text("shop"))]);
    assert_eq!(tag_kube_config(&mut doc), Some(()));
    assert_eq!(doc, labelled(vec![("minitel-app", text("minitel")), ("app", text("shop"))]));
}

#[test]
fn tagging_twice_changes_nothing_more() {
    let mut doc = labelled(vec![("app", text("shop"))]);
    assert_eq!(tag_kube_config(&mut doc), Some(()));
    let once = to_yaml_text(&doc).unwrap();
    assert_eq!(tag_kube_config(&mut doc), Some(()));
    assert_eq!(to_yaml_text(&doc).unwrap(), once);
    assert_eq!(doc, labelled(vec![("app", text("shop")), ("minitel-app", text("minitel"))]));
}

#[test]
fn metadata_without_labels_is_a_soft_failure() {
    let mut doc = mapping(vec![("metadata", mapping(vec![("name", text("front"))]))]);
    assert_eq!(tag_kube_config(&mut doc), None);
    assert_eq!(doc, mapping(vec![("metadata", mapping(vec![("name", text("front"))]))]));
}

#[test]
fn labels_that_are_no_mapping_are_a_soft_failure() {
    let mut doc = mapping(vec![("metadata", mapping(vec![("labels", text("none"))]))]);
    assert_eq!(tag_kube_config(&mut doc), None);
    assert_eq!(doc, mapping(vec![("metadata", mapping(vec![("labels", text("none"))]))]));
    let mut list = mapping(vec![("metadata", ConfigValue::List(vec![]))]);
    assert_eq!(tag_kube_config(&mut list), None);
}

#[test]
fn document_that_is_no_mapping_is_a_soft_failure() {
    let mut doc = text("hello");
    assert_eq!(tag_kube_config(&mut doc), None);
    assert_eq!(doc, text("hello"));
    let mut number = ConfigValue::Int(3);
    assert_eq!(tag_kube_config(&mut number), None);
    assert_eq!(number, ConfigValue::Int(3));
}

#[test]
fn every_document_of_a_run_is_tagged_and_failures_are_counted() {
    let mut docs = vec![labelled(vec![]), text("x"), labelled(vec![("a", text("b"))]), ConfigValue::Int(1)];
    let untagged = tag_documents(&mut docs);
    assert_eq!(untagged, 2);
    assert_eq!(
        docs,
        vec![
            labelled(vec![("minitel-app", text("minitel"))]),
            text("x"),
            labelled(vec![("a", text("b")), ("minitel-app", text("minitel"))]),
            ConfigValue::Int(1)
        ]
    );
}

#[test]
fn manifest_is_tagged_document_by_document() {
    let manifest = "kind: Ingress\nmetadata:\n  name: front\n  labels:\n    app: shop\n---\nkind: Namespace\n---\nkind: Service\nmetadata:\n  labels: {}\n";
    let tagged = ensure_tag_config(manifest).unwrap();
    let expected = "---\nkind: Ingress\nmetadata:\n  name: front\n  labels:\n    app: shop\n    minitel-app: minitel\n\
...\n---\nkind: Namespace\n\
...\n---\nkind: Service\nmetadata:\n  labels:\n    minitel-app: minitel\n";
    assert_eq!(tagged.text, expected);
    assert_eq!(tagged.untagged, 1);
    let documents = parse_documents(&tagged.text).unwrap();
    assert_eq!(documents.len(), 3);
}

#[test]
fn tagging_a_tagged_manifest_gives_the_same_text() {
    let manifest = "kind: Ingress\nmetadata:\n  labels:\n    app: shop\n";
    let once = ensure_tag_config(manifest).unwrap();
    let twice = ensure_tag_config(&once.text).unwrap();
    assert_eq!(once, twice);
}

#[test]
fn empty_manifest_gives_empty_text() {
    let tagged = ensure_tag_config("").unwrap();
    assert_eq!(tagged, TaggedConfig { text: String::new(), untagged: 0 });
}

#[test]
fn manifest_that_is_no_yaml_is_refused() {
    assert_eq!(ensure_tag_config("key: [unclosed"), Err(ManifestError::Parse));
    assert_eq!(ensure_tag_config("a: b: c: d"), Err(ManifestError::Parse));
}

#[test]
fn manifest_with_a_value_outside_the_model_is_refused() {
    assert_eq!(ensure_tag_config("enabled: true\n"), Err(ManifestError::Unsupported));
    assert_eq!(ensure_tag_config("value: ~\n"), Err(ManifestError::Unsupported));
    assert_eq!(ensure_tag_config("ratio: 0.5\n"), Err(ManifestError::Unsupported));
    assert_eq!(ensure_tag_config("big: 4294967296\n"), Err(ManifestError::Unsupported));
    assert_eq!(ensure_tag_config("1: one\n"), Err(ManifestError::Unsupported));
}
