//! The ownership label on manifests that the user supplies.
//!
//! Everything that carries the label is removed by a teardown, so a user's
//! own manifest is labelled before it is applied.

use vstd::prelude::*;
use crate::value::ConfigTree;
use crate::value::ConfigValue;
use crate::value::entries_get;
use crate::value::entries_insert;
use crate::value::entries_view;
use crate::value::find_key;
use crate::value::has_key;
use crate::value::insert_entry;
use crate::value::is_first_with_key;
use crate::value::items_view;
use crate::value::key_index;
use crate::value::lemma_insert_keeps_wf;
use crate::value::lemma_key_index;
use crate::value::lemma_key_index_is_first;
use crate::value::lemma_mapping_view;
use crate::value::lemma_mapping_wf;
use crate::value::lemma_update_keeps_wf;
use crate::yaml::MAX_DEPTH;
use crate::yaml::ManifestError;
use crate::yaml::all_fit;
use crate::yaml::lemma_fits_is_wf;
use crate::yaml::parse_documents;
use crate::yaml::stream_text;
use crate::yaml::to_yaml_stream;
use crate::yaml::yaml_documents;

verus! {

/// The labels with the ownership label written among them.
pub open spec fn with_ownership_label(labels: Seq<(Seq<char>, ConfigTree)>) -> Seq<
    (Seq<char>, ConfigTree),
> {
    entries_insert(labels, "minitel-app"@, ConfigTree::Str("minitel"@))
}

/// The labels that a metadata value holds: the mapping stored under
/// `labels`, where the value is a mapping that has one there.
pub open spec fn labels_in(metadata: ConfigTree) -> Option<Seq<(Seq<char>, ConfigTree)>> {
    match metadata {
        ConfigTree::Mapping(meta) => match entries_get(meta, "labels"@) {
            Some(ConfigTree::Mapping(labels)) => Some(labels),
            _ => None,
        },
        _ => None,
    }
}

/// The labels of a document: those of the value stored under `metadata`,
/// where the document is a mapping that has one there.
pub open spec fn labels_of(doc: ConfigTree) -> Option<Seq<(Seq<char>, ConfigTree)>> {
    match doc {
        ConfigTree::Mapping(top) => match entries_get(top, "metadata"@) {
            Some(metadata) => labels_in(metadata),
            None => None,
        },
        _ => None,
    }
}

/// A labels value with the ownership label written into it, or the value
/// itself where it is no mapping.
pub open spec fn tagged_labels(labels: ConfigTree) -> ConfigTree {
    match labels {
        ConfigTree::Mapping(entries) => ConfigTree::Mapping(with_ownership_label(entries)),
        _ => labels,
    }
}

/// A metadata value with the ownership label written into its labels, or the
/// value itself where it holds no labels.
pub open spec fn tagged_metadata(metadata: ConfigTree) -> ConfigTree {
    if labels_in(metadata) is Some {
        let meta = metadata->Mapping_0;
        let at = key_index(meta, "labels"@);
        ConfigTree::Mapping(meta.update(at, (meta[at].0, tagged_labels(meta[at].1))))
    } else {
        metadata
    }
}

/// The document with the ownership label written into its labels, or the
/// document itself where it holds no labels.
pub open spec fn tagged(doc: ConfigTree) -> ConfigTree {
    if labels_of(doc) is Some {
        let top = doc->Mapping_0;
        let at = key_index(top, "metadata"@);
        ConfigTree::Mapping(top.update(at, (top[at].0, tagged_metadata(top[at].1))))
    } else {
        doc
    }
}

fn tag_labels(labels: &mut ConfigValue) -> (r: bool)
    ensures
        r <==> old(labels)@ is Mapping,
        final(labels)@ == tagged_labels(old(labels)@),
{
    match labels {
        ConfigValue::Mapping(entries) => {
            proof {
                lemma_mapping_view(*entries);
            }
            insert_entry(entries, "minitel-app", ConfigValue::text("minitel"));
            proof {
                lemma_mapping_view(*entries);
            }
            true
        },
        _ => false,
    }
}

fn tag_metadata(metadata: &mut ConfigValue) -> (r: bool)
    ensures
        r <==> labels_in(old(metadata)@) is Some,
        final(metadata)@ == tagged_metadata(old(metadata)@),
{
    match metadata {
        ConfigValue::Mapping(meta) => {
            proof {
                lemma_mapping_view(*meta);
            }
            match find_key(meta, "labels") {
                Some(at) => {
                    let ghost before = meta@;
                    let done = tag_labels(&mut meta[at].1);
                    proof {
                        lemma_mapping_view(*meta);
                        let model = entries_view(before);
                        assert(model[at as int] == (before[at as int].0@, before[at as int].1@));
                        assert(entries_view(meta@) =~= model.update(
                            at as int,
                            (model[at as int].0, tagged_labels(model[at as int].1)),
                        ));
                        if !done {
                            assert(entries_view(meta@) =~= model);
                        }
                    }
                    done
                },
                None => false,
            }
        },
        _ => false,
    }
}

/// Writes the ownership label into the labels of a document.
///
/// Returns `None`, and leaves the document as it is, where the document has
/// no mapping of labels under its metadata.
pub fn tag_kube_config(config: &mut ConfigValue) -> (r: Option<()>)
    ensures
        r is Some <==> labels_of(old(config)@) is Some,
        final(config)@ == tagged(old(config)@),
        old(config)@.wf() ==> final(config)@.wf(),
{
    proof {
        if config@.wf() {
            lemma_tagged_is_wf(config@);
        }
    }
    match config {
        ConfigValue::Mapping(top) => {
            proof {
                lemma_mapping_view(*top);
            }
            match find_key(top, "metadata") {
                Some(at) => {
                    let ghost before = top@;
                    let done = tag_metadata(&mut top[at].1);
                    proof {
                        lemma_mapping_view(*top);
                        let model = entries_view(before);
                        assert(model[at as int] == (before[at as int].0@, before[at as int].1@));
                        assert(entries_view(top@) =~= model.update(
                            at as int,
                            (model[at as int].0, tagged_metadata(model[at as int].1)),
                        ));
                        if !done {
                            assert(entries_view(top@) =~= model);
                        }
                    }
                    if done {
                        Some(())
                    } else {
                        None
                    }
                },
                None => None,
            }
        },
        _ => None,
    }
}

/// The document carries the ownership label among its labels.
pub open spec fn is_owned(doc: ConfigTree) -> bool {
    labels_of(doc) matches Some(labels) && entries_get(labels, "minitel-app"@) == Some(
        ConfigTree::Str("minitel"@),
    )
}

/// A document that has labels carries the ownership label once it is
/// tagged.
pub proof fn lemma_tagged_is_owned(doc: ConfigTree)
    requires
        labels_of(doc) is Some,
    ensures
        is_owned(tagged(doc)),
{
    let top = doc->Mapping_0;
    lemma_key_index_is_first(top, "metadata"@);
    let m = key_index(top, "metadata"@);
    let metadata = top[m].1;
    let meta = metadata->Mapping_0;
    lemma_key_index_is_first(meta, "labels"@);
    let l = key_index(meta, "labels"@);
    let labels = meta[l].1->Mapping_0;
    let meta1 = meta.update(l, (meta[l].0, tagged_labels(meta[l].1)));
    assert(is_first_with_key(meta1, "labels"@, l)) by {
        assert forall|j: int| 0 <= j < l implies #[trigger] meta1[j].0 != "labels"@ by {
            assert(meta1[j] == meta[j]);
        }
    }
    lemma_key_index(meta1, "labels"@, l);
    let top1 = top.update(m, (top[m].0, tagged_metadata(metadata)));
    assert(is_first_with_key(top1, "metadata"@, m)) by {
        assert forall|j: int| 0 <= j < m implies #[trigger] top1[j].0 != "metadata"@ by {
            assert(top1[j] == top[j]);
        }
    }
    lemma_key_index(top1, "metadata"@, m);
    assert(labels_of(tagged(doc)) == Some(with_ownership_label(labels)));
    lemma_written_label_is_read(labels);
}

/// The ownership label is found among labels into which it was written.
pub proof fn lemma_written_label_is_read(labels: Seq<(Seq<char>, ConfigTree)>)
    ensures
        entries_get(with_ownership_label(labels), "minitel-app"@) == Some(
            ConfigTree::Str("minitel"@),
        ),
{
    let key = "minitel-app"@;
    let after = with_ownership_label(labels);
    if has_key(labels, key) {
        lemma_key_index_is_first(labels, key);
        let at = key_index(labels, key);
        assert(is_first_with_key(after, key, at)) by {
            assert forall|j: int| 0 <= j < at implies #[trigger] after[j].0 != key by {
                assert(after[j] == labels[j]);
            }
        }
        lemma_key_index(after, key, at);
    } else {
        let at = labels.len() as int;
        assert(is_first_with_key(after, key, at)) by {
            assert forall|j: int| 0 <= j < at implies #[trigger] after[j].0 != key by {
                assert(after[j] == labels[j]);
            }
        }
        lemma_key_index(after, key, at);
    }
}

/// Tagging keeps a well-formed document well formed.
pub proof fn lemma_tagged_is_wf(doc: ConfigTree)
    requires
        doc.wf(),
    ensures
        tagged(doc).wf(),
{
    if labels_of(doc) is Some {
        let top = doc->Mapping_0;
        lemma_key_index_is_first(top, "metadata"@);
        let m = key_index(top, "metadata"@);
        lemma_mapping_wf(top);
        let metadata = top[m].1;
        assert(metadata.wf());
        let meta = metadata->Mapping_0;
        lemma_key_index_is_first(meta, "labels"@);
        let l = key_index(meta, "labels"@);
        lemma_mapping_wf(meta);
        let labels = meta[l].1;
        assert(labels.wf());
        lemma_insert_keeps_wf(labels->Mapping_0, "minitel-app"@, ConfigTree::Str("minitel"@));
        lemma_update_keeps_wf(meta, l, tagged_labels(labels));
        lemma_update_keeps_wf(top, m, tagged_metadata(metadata));
    }
}

/// Tagging a document that is tagged already changes nothing.
pub proof fn lemma_tag_idempotent(doc: ConfigTree)
    ensures
        tagged(tagged(doc)) == tagged(doc),
        labels_of(tagged(doc)) is Some <==> labels_of(doc) is Some,
{
    if labels_of(doc) is Some {
        let top = doc->Mapping_0;
        lemma_key_index_is_first(top, "metadata"@);
        let m = key_index(top, "metadata"@);
        let metadata = top[m].1;
        let meta = metadata->Mapping_0;
        lemma_key_index_is_first(meta, "labels"@);
        let l = key_index(meta, "labels"@);
        let labels = meta[l].1->Mapping_0;
        let key = "minitel-app"@;
        let value = ConfigTree::Str("minitel"@);
        let labels1 = with_ownership_label(labels);
        // The label is among the labels after the first tagging, at its first place.
        if has_key(labels, key) {
            lemma_key_index_is_first(labels, key);
            let at = key_index(labels, key);
            assert(is_first_with_key(labels1, key, at)) by {
                assert forall|j: int| 0 <= j < at implies #[trigger] labels1[j].0 != key by {
                    assert(labels1[j] == labels[j]);
                }
            }
            lemma_key_index(labels1, key, at);
            assert(with_ownership_label(labels1) =~= labels1);
        } else {
            let at = labels.len() as int;
            assert(is_first_with_key(labels1, key, at)) by {
                assert forall|j: int| 0 <= j < at implies #[trigger] labels1[j].0 != key by {
                    assert(labels1[j] == labels[j]);
                }
            }
            lemma_key_index(labels1, key, at);
            assert(with_ownership_label(labels1) =~= labels1);
        }
        let meta1 = meta.update(l, (meta[l].0, tagged_labels(meta[l].1)));
        assert(is_first_with_key(meta1, "labels"@, l)) by {
            assert forall|j: int| 0 <= j < l implies #[trigger] meta1[j].0 != "labels"@ by {
                assert(meta1[j] == meta[j]);
            }
        }
        lemma_key_index(meta1, "labels"@, l);
        assert(meta1.update(l, (meta1[l].0, tagged_labels(meta1[l].1))) =~= meta1);
        let top1 = top.update(m, (top[m].0, tagged_metadata(metadata)));
        assert(is_first_with_key(top1, "metadata"@, m)) by {
            assert forall|j: int| 0 <= j < m implies #[trigger] top1[j].0 != "metadata"@ by {
                assert(top1[j] == top[j]);
            }
        }
        lemma_key_index(top1, "metadata"@, m);
        assert(top1.update(m, (top1[m].0, tagged_metadata(top1[m].1))) =~= top1);
    }
}

/// The documents, each tagged.
pub open spec fn tagged_all(docs: Seq<ConfigTree>) -> Seq<ConfigTree> {
    Seq::new(docs.len(), |i: int| tagged(docs[i]))
}

/// The number of documents that have no labels to write to.
pub open spec fn untagged_count(docs: Seq<ConfigTree>) -> nat
    decreases docs.len(),
{
    if docs.len() == 0 {
        0
    } else {
        untagged_count(docs.drop_last()) + if labels_of(docs.last()) is None {
            1nat
        } else {
            0nat
        }
    }
}

/// Tags every document of a run and counts those that could not be tagged.
pub fn tag_documents(docs: &mut Vec<ConfigValue>) -> (untagged: usize)
    ensures
        items_view(final(docs)@) == tagged_all(items_view(old(docs)@)),
        untagged == untagged_count(items_view(old(docs)@)),
{
    let ghost before = items_view(docs@);
    let mut untagged: usize = 0;
    let mut i: usize = 0;
    proof {
        assert(before.take(0) =~= Seq::<ConfigTree>::empty());
    }
    while i < docs.len()
        invariant
            0 <= i <= docs.len(),
            docs.len() == before.len(),
            untagged <= i,
            untagged == untagged_count(before.take(i as int)),
            forall|k: int| 0 <= k < i ==> (#[trigger] docs@[k])@ == tagged(before[k]),
            forall|k: int| i <= k < docs.len() ==> (#[trigger] docs@[k])@ == before[k],
        decreases docs.len() - i,
    {
        proof {
            assert(before.take(i + 1).drop_last() =~= before.take(i as int));
            assert(before.take(i + 1).last() == before[i as int]);
        }
        match tag_kube_config(&mut docs[i]) {
            Some(_) => {},
            None => {
                untagged += 1;
            },
        }
        i += 1;
    }
    proof {
        assert(before.take(i as int) =~= before);
        assert(items_view(docs@) =~= tagged_all(before));
    }
    untagged
}

/// What tagging makes of a user's manifest: the text of its tagged
/// documents and the number of documents without labels, or nothing where
/// the manifest cannot be read or written.
pub open spec fn tagged_config(config: Seq<char>) -> Option<TaggedConfigSpec> {
    match yaml_documents(config) {
        Some(docs) => if all_fit(docs, MAX_DEPTH as nat) {
            match stream_text(tagged_all(docs)) {
                Some(text) => Some(TaggedConfigSpec { text, untagged: untagged_count(docs) }),
                None => None,
            }
        } else {
            None
        },
        None => None,
    }
}

/// Why a user's manifest cannot be tagged, where it cannot: it is no YAML,
/// or it holds a value that is no document, or the YAML writer does not
/// write one of its tagged documents.
pub open spec fn tagging_error(config: Seq<char>) -> ManifestError {
    match yaml_documents(config) {
        Some(docs) => if all_fit(docs, MAX_DEPTH as nat) {
            ManifestError::Serialization
        } else {
            ManifestError::Unsupported
        },
        None => ManifestError::Parse,
    }
}

/// A user's manifest with the ownership label on its documents.
#[derive(Debug, PartialEq, Eq)]
pub struct TaggedConfig {
    /// The manifest as YAML text.
    pub text: String,
    /// The number of documents that have no labels and were left as they
    /// were.
    pub untagged: usize,
}

/// Mathematical model of a [`TaggedConfig`].
pub struct TaggedConfigSpec {
    pub text: Seq<char>,
    pub untagged: nat,
}

impl View for TaggedConfig {
    type V = TaggedConfigSpec;

    open spec fn view(&self) -> TaggedConfigSpec {
        TaggedConfigSpec { text: self.text@, untagged: self.untagged as nat }
    }
}

/// Reads a user's manifest, writes the ownership label into the labels of
/// each of its documents and writes the documents out again.
///
/// A document that has no labels is left as it is and counted, so that the
/// caller can warn about it. The manifest is refused where it cannot be
/// read, and where the YAML writer does not write a document.
pub fn ensure_tag_config(config: &str) -> (r: Result<TaggedConfig, ManifestError>)
    ensures
        match r {
            Ok(t) => {
                &&& yaml_documents(config@) matches Some(docs)
                &&& all_fit(docs, MAX_DEPTH as nat)
                &&& stream_text(tagged_all(docs)) == Some(t.text@)
                &&& t.untagged == untagged_count(docs)
            },
            Err(ManifestError::Parse) => yaml_documents(config@) is None,
            Err(ManifestError::Unsupported) => yaml_documents(config@) is Some && !all_fit(
                yaml_documents(config@)->0,
                MAX_DEPTH as nat,
            ),
            Err(ManifestError::Serialization) => {
                &&& yaml_documents(config@) matches Some(docs)
                &&& all_fit(docs, MAX_DEPTH as nat)
                &&& stream_text(tagged_all(docs)) is None
            },
            Err(ManifestError::DuplicateKey) => false,
        },
        match r {
            Ok(t) => tagged_config(config@) == Some(t@),
            Err(e) => tagged_config(config@) is None && e == tagging_error(config@),
        },
{
    let mut docs = match parse_documents(config) {
        Ok(docs) => docs,
        Err(e) => {
            return Err(e);
        },
    };
    let ghost before = items_view(docs@);
    let untagged = tag_documents(&mut docs);
    proof {
        assert forall|i: int| 0 <= i < before.len() implies (#[trigger] tagged_all(before)[i]).wf() by {
            lemma_fits_is_wf(before[i], MAX_DEPTH as nat);
            lemma_tagged_is_wf(before[i]);
        }
    }
    match to_yaml_stream(&docs) {
        Ok(text) => Ok(TaggedConfig { text, untagged }),
        Err(e) => Err(e),
    }
}

} // verus!
