//! Documents as YAML text.
//!
//! The text is written and read by `serde_yaml`. This module turns a
//! document into the value that `serde_yaml` writes, and a value that
//! `serde_yaml` has read into a document, piece by piece and verified; and
//! it puts the written texts of several documents together.
//!
//! What is taken on trust from `serde_yaml` stands at the head of the
//! module: its types, the document that a value holds, the names for what
//! is written and what is read, and one small function around each of its
//! functions that is called.

use vstd::prelude::*;
use crate::value::ConfigTree;
use crate::value::ConfigValue;
use crate::value::all_wf;
use crate::value::are_well_formed;
use crate::value::is_well_formed;
use crate::value::entries_view;
use crate::value::items_view;
use crate::value::keys_distinct;
use crate::value::lemma_list_view;
use crate::value::lemma_list_wf;
use crate::value::lemma_mapping_view;
use crate::value::lemma_mapping_wf;

verus! {

/// `serde_yaml::Value`: a YAML value, into which this library looks only
/// through the functions below.
#[verifier::external_type_specification]
#[verifier::external_body]
pub struct ExYamlValue(serde_yaml::Value);

/// `serde_yaml::Error`: the error of the YAML reader and writer, which is
/// passed on and never looked into.
#[verifier::external_type_specification]
#[verifier::external_body]
pub struct ExYamlError(serde_yaml::Error);

/// The document that a `serde_yaml::Value` holds.
pub uninterp spec fn yaml_tree(v: serde_yaml::Value) -> ConfigTree;

/// What `serde_yaml::to_string` gives for a value that holds `doc`: the text
/// of the document, or nothing where it reports an error.
pub uninterp spec fn yaml_text(doc: ConfigTree) -> Option<Seq<char>>;

/// The marker with which a written document begins.
pub open spec fn document_start() -> Seq<char> {
    seq!['-', '-', '-', '\n']
}

/// The text begins with the marker of a new document.
pub open spec fn starts_document(text: Seq<char>) -> bool {
    text.len() >= 4 && text.subrange(0, 4) == document_start()
}

/// The documents held by a run of YAML values.
pub open spec fn yaml_trees(values: Seq<serde_yaml::Value>) -> Seq<ConfigTree> {
    Seq::new(values.len(), |i: int| yaml_tree(values[i]))
}

/// The entries of the mapping made from `keys` and `values`, pair by pair.
pub open spec fn yaml_entries(keys: Seq<String>, values: Seq<serde_yaml::Value>) -> Seq<
    (Seq<char>, ConfigTree),
> {
    Seq::new(keys.len(), |i: int| (keys[i]@, yaml_tree(values[i])))
}

/// `serde_yaml::Value::from` on a `String`: the string scalar with that
/// text.
#[verifier::external_body]
fn yaml_string(s: String) -> (v: serde_yaml::Value)
    ensures
        yaml_tree(v) == ConfigTree::Str(s@),
{
    serde_yaml::Value::from(s)
}

/// `serde_yaml::Value::from` on an `i32`: the integer scalar with that
/// number.
#[verifier::external_body]
fn yaml_integer(i: i32) -> (v: serde_yaml::Value)
    ensures
        yaml_tree(v) == ConfigTree::Int(i as int),
{
    serde_yaml::Value::from(i)
}

/// `serde_yaml::Value::Sequence`: the sequence of the given values, in their
/// order.
#[verifier::external_body]
fn yaml_sequence(items: Vec<serde_yaml::Value>) -> (v: serde_yaml::Value)
    ensures
        yaml_tree(v) == ConfigTree::List(yaml_trees(items@)),
{
    serde_yaml::Value::Sequence(items)
}

/// `serde_yaml::Mapping::from_iter`, wrapped in `serde_yaml::Value::Mapping`:
/// the mapping whose entries are the keys, as string scalars, paired with the
/// values, in their order. The keys must differ from each other, since a
/// repeated key would replace the earlier entry.
#[verifier::external_body]
fn yaml_mapping(keys: Vec<String>, values: Vec<serde_yaml::Value>) -> (v: serde_yaml::Value)
    requires
        keys.len() == values.len(),
        forall|i: int, j: int| 0 <= i < j < keys.len() ==> keys[i]@ != keys[j]@,
    ensures
        yaml_tree(v) == ConfigTree::Mapping(yaml_entries(keys@, values@)),
{
    let pairs = keys.into_iter().map(serde_yaml::Value::String).zip(values);
    serde_yaml::Value::Mapping(pairs.collect())
}

/// `serde_yaml::to_string`: the YAML text of a value that holds a document,
/// which depends on that document and on nothing else. A text that is
/// written begins with the line `---`.
#[verifier::external_body]
fn yaml_to_string(v: &serde_yaml::Value) -> (r: Result<String, serde_yaml::Error>)
    requires
        yaml_tree(*v).wf(),
    ensures
        match r {
            Ok(s) => yaml_text(yaml_tree(*v)) == Some(s@) && starts_document(s@),
            Err(_) => yaml_text(yaml_tree(*v)) is None,
        },
{
    serde_yaml::to_string(v)
}

/// `serde_yaml::Serializer`: a writer of YAML documents, one after the
/// other, into which this library looks only through the functions below.
#[verifier::external_type_specification]
#[verifier::external_body]
#[verifier::reject_recursive_types(W)]
pub struct ExYamlSerializer<W>(serde_yaml::Serializer<W>);

/// The text that a serializer has written so far.
pub uninterp spec fn serializer_text(s: serde_yaml::Serializer<Vec<u8>>) -> Seq<char>;

/// The number of documents that a serializer has written so far.
pub uninterp spec fn serializer_documents(s: serde_yaml::Serializer<Vec<u8>>) -> nat;

/// The line that ends a document where another one follows in the same
/// text.
pub open spec fn document_end() -> Seq<char> {
    seq!['.', '.', '.', '\n']
}

/// What stands between the documents that a serializer writes: nothing
/// before the first one, the line `...` before every other one.
pub open spec fn document_gap(written: nat) -> Seq<char> {
    if written > 0 {
        document_end()
    } else {
        Seq::empty()
    }
}

/// `serde_yaml::Serializer::new` on an empty `Vec<u8>`: a serializer that
/// has written nothing yet.
#[verifier::external_body]
fn yaml_serializer() -> (s: serde_yaml::Serializer<Vec<u8>>)
    ensures
        serializer_text(s) == Seq::<char>::empty(),
        serializer_documents(s) == 0,
{
    serde_yaml::Serializer::new(Vec::new())
}

/// `serde::Serialize::serialize` of a `serde_yaml::Value` into a
/// `serde_yaml::Serializer`: the serializer writes one more document, the
/// text that `serde_yaml::to_string` gives for the value, after the line
/// `...` where it has written a document before. Where it reports an error,
/// `serde_yaml::to_string` reports one for the value too.
#[verifier::external_body]
fn yaml_serialize(s: &mut serde_yaml::Serializer<Vec<u8>>, v: &serde_yaml::Value) -> (r: Result<
    (),
    serde_yaml::Error,
>)
    requires
        yaml_tree(*v).wf(),
    ensures
        match r {
            Ok(_) => {
                &&& yaml_text(yaml_tree(*v)) is Some
                &&& starts_document(yaml_text(yaml_tree(*v))->0)
                &&& serializer_documents(*final(s)) == serializer_documents(*old(s)) + 1
                &&& serializer_text(*final(s)) == serializer_text(*old(s)) + document_gap(
                    serializer_documents(*old(s)),
                ) + yaml_text(yaml_tree(*v))->0
            },
            Err(_) => yaml_text(yaml_tree(*v)) is None,
        },
{
    serde::Serialize::serialize(v, s)
}

/// `serde_yaml::Serializer::into_inner`, read as text: what the serializer
/// has written.
#[verifier::external_body]
fn yaml_serialized(s: serde_yaml::Serializer<Vec<u8>>) -> (r: String)
    ensures
        r@ == serializer_text(s),
{
    String::from_utf8_lossy(&s.into_inner()).into_owned()
}

/// What `serde_yaml` gives for a text that it reads document by document:
/// what each document holds, in the order of the text, or nothing where it
/// reports an error.
pub uninterp spec fn yaml_documents(text: Seq<char>) -> Option<Seq<ConfigTree>>;

/// Every pair has a key that holds a text.
pub open spec fn keys_are_text(pairs: Seq<(serde_yaml::Value, serde_yaml::Value)>) -> bool {
    forall|i: int| 0 <= i < pairs.len() ==> yaml_tree((#[trigger] pairs[i]).0) is Str
}

/// The entries of a mapping that was read, from its pairs of key and value.
pub open spec fn parsed_entries(pairs: Seq<(serde_yaml::Value, serde_yaml::Value)>) -> Seq<
    (Seq<char>, ConfigTree),
> {
    Seq::new(pairs.len(), |i: int| (yaml_tree(pairs[i].0)->Str_0, yaml_tree(pairs[i].1)))
}

/// `serde_yaml::Deserializer::from_str`, each document read as a
/// `serde_yaml::Value`: the values of the documents of the text, in order,
/// or the first error. What is read depends on the text alone.
#[verifier::external_body]
fn yaml_parse(text: &str) -> (r: Result<Vec<serde_yaml::Value>, serde_yaml::Error>)
    ensures
        match r {
            Ok(values) => yaml_documents(text@) == Some(yaml_trees(values@)),
            Err(_) => yaml_documents(text@) is None,
        },
{
    let documents = serde_yaml::Deserializer::from_str(text);
    documents.map(<serde_yaml::Value as serde::Deserialize>::deserialize).collect()
}

/// `serde_yaml::Value::as_str`: the text of a string scalar, and nothing for
/// any other value.
#[verifier::external_body]
fn yaml_as_string(v: &serde_yaml::Value) -> (r: Option<String>)
    ensures
        match r {
            Some(s) => yaml_tree(*v) == ConfigTree::Str(s@),
            None => !(yaml_tree(*v) is Str),
        },
{
    v.as_str().map(String::from)
}

/// `serde_yaml::Value::as_i64`: the number of an integer scalar that fits in
/// 64 bits with a sign, and nothing for any other value. Only such a scalar
/// holds an integer.
#[verifier::external_body]
fn yaml_as_i64(v: &serde_yaml::Value) -> (r: Option<i64>)
    ensures
        match r {
            Some(n) => yaml_tree(*v) == ConfigTree::Int(n as int),
            None => !(yaml_tree(*v) is Int),
        },
{
    v.as_i64()
}

/// `serde_yaml::Value::as_sequence`: the items of a sequence, in order, and
/// nothing for any other value.
#[verifier::external_body]
fn yaml_as_sequence(v: &serde_yaml::Value) -> (r: Option<Vec<serde_yaml::Value>>)
    ensures
        match r {
            Some(items) => yaml_tree(*v) == ConfigTree::List(yaml_trees(items@)),
            None => !(yaml_tree(*v) is List),
        },
{
    v.as_sequence().cloned()
}

/// `serde_yaml::Value::as_mapping` and the mapping's `into_iter`: the pairs
/// of key and value of a mapping, in the order of insertion, and nothing for
/// any other value. A mapping whose keys are all texts holds those entries,
/// and its keys differ from each other; a mapping with any other key holds
/// no document.
#[verifier::external_body]
fn yaml_as_entries(v: &serde_yaml::Value) -> (r: Option<Vec<(serde_yaml::Value, serde_yaml::Value)>>)
    ensures
        match r {
            Some(pairs) => {
                &&& keys_are_text(pairs@) ==> yaml_tree(*v) == ConfigTree::Mapping(
                    parsed_entries(pairs@),
                ) && keys_distinct(parsed_entries(pairs@))
                &&& !keys_are_text(pairs@) ==> yaml_tree(*v) is Foreign
            },
            None => !(yaml_tree(*v) is Mapping),
        },
{
    let mapping = v.as_mapping()?;
    Some(mapping.clone().into_iter().collect())
}

/// Why a manifest could not be written.
#[derive(Debug, Clone, Copy, PartialEq, Eq, Structural)]
pub enum ManifestError {
    /// A mapping of the document has the same key twice.
    DuplicateKey,
    /// The YAML writer reported an error.
    Serialization,
    /// The text is not YAML.
    Parse,
    /// The text holds a value that is no document: a null, a boolean, a
    /// float, an integer beyond 32 bits, a key that is no text, or a nesting
    /// deeper than [`MAX_DEPTH`].
    Unsupported,
}

/// The value that `serde_yaml` writes for a document.
fn to_yaml(doc: &ConfigValue) -> (v: serde_yaml::Value)
    requires
        doc@.wf(),
    ensures
        yaml_tree(v) == doc@,
    decreases doc,
{
    match doc {
        ConfigValue::String(s) => yaml_string(s.clone()),
        ConfigValue::Int(i) => yaml_integer(*i),
        ConfigValue::List(items) => {
            proof {
                lemma_list_view(*items);
                lemma_list_wf(items_view(items@));
            }
            let ghost model = items_view(items@);
            assert(doc@ == ConfigTree::List(model));
            let mut out: Vec<serde_yaml::Value> = Vec::new();
            let mut i: usize = 0;
            while i < items.len()
                invariant
                    0 <= i <= items.len(),
                    out.len() == i,
                    model == items_view(items@),
                    forall|k: int| 0 <= k < items.len() ==> decreases_to!(doc => items@[k]),
                    forall|k: int| 0 <= k < items.len() ==> (#[trigger] model[k]).wf(),
                    forall|k: int| 0 <= k < i ==> yaml_tree(#[trigger] out@[k]) == model[k],
                decreases items.len() - i,
            {
                assert(model[i as int].wf());
                let item = to_yaml(&items[i]);
                out.push(item);
                i += 1;
            }
            assert(yaml_trees(out@) =~= model);
            yaml_sequence(out)
        },
        ConfigValue::Mapping(entries) => {
            proof {
                lemma_mapping_view(*entries);
                lemma_mapping_wf(entries_view(entries@));
            }
            let ghost model = entries_view(entries@);
            assert(doc@ == ConfigTree::Mapping(model));
            let mut keys: Vec<String> = Vec::new();
            let mut values: Vec<serde_yaml::Value> = Vec::new();
            let mut i: usize = 0;
            while i < entries.len()
                invariant
                    0 <= i <= entries.len(),
                    keys.len() == i,
                    values.len() == i,
                    model == entries_view(entries@),
                    forall|k: int| 0 <= k < entries.len() ==> decreases_to!(doc => entries@[k].1),
                    forall|k: int| 0 <= k < entries.len() ==> (#[trigger] model[k]).1.wf(),
                    keys_distinct(model),
                    forall|k: int| 0 <= k < i ==> (#[trigger] keys@[k])@ == model[k].0,
                    forall|k: int| 0 <= k < i ==> yaml_tree(#[trigger] values@[k]) == model[k].1,
                decreases entries.len() - i,
            {
                assert(model[i as int].1.wf());
                let value = to_yaml(&entries[i].1);
                keys.push(entries[i].0.clone());
                values.push(value);
                i += 1;
            }
            assert(yaml_entries(keys@, values@) =~= model);
            assert forall|a: int, b: int| 0 <= a < b < keys.len() implies keys[a]@ != keys[b]@ by {
                assert(model[a].0 != model[b].0);
            }
            yaml_mapping(keys, values)
        },
    }
}

/// What the YAML writer's answer means for the caller: its text, or the
/// error of this library that stands for the writer's.
pub fn written(answer: Result<String, serde_yaml::Error>) -> (r: Result<String, ManifestError>)
    ensures
        match answer {
            Ok(s) => r == Ok::<String, ManifestError>(s),
            Err(_) => r == Err::<String, ManifestError>(ManifestError::Serialization),
        },
{
    match answer {
        Ok(s) => Ok(s),
        Err(_) => Err(ManifestError::Serialization),
    }
}

/// Writes one document as YAML text.
///
/// A document with a repeated key is refused. Otherwise the result is what
/// the YAML writer gives for the document.
pub fn to_yaml_text(doc: &ConfigValue) -> (r: Result<String, ManifestError>)
    ensures
        match r {
            Ok(s) => doc@.wf() && yaml_text(doc@) == Some(s@) && starts_document(s@),
            Err(ManifestError::DuplicateKey) => !doc@.wf(),
            Err(ManifestError::Serialization) => doc@.wf() && yaml_text(doc@) is None,
            Err(_) => false,
        },
{
    if !is_well_formed(doc) {
        return Err(ManifestError::DuplicateKey);
    }
    let value = to_yaml(doc);
    written(yaml_to_string(&value))
}

/// The text of two documents written one after the other, where the YAML
/// writer gives a text for each.
pub open spec fn documents_text(first: ConfigTree, second: ConfigTree) -> Option<Seq<char>> {
    match (yaml_text(first), yaml_text(second)) {
        (Some(a), Some(b)) => Some(a + b),
        _ => None,
    }
}

/// Writes two documents as one manifest: the text of the first, then the
/// text of the second. Each text begins with the marker of a new document,
/// which keeps the two apart.
pub fn to_yaml_manifest(first: &ConfigValue, second: &ConfigValue) -> (r: Result<
    String,
    ManifestError,
>)
    ensures
        match r {
            Ok(s) => {
                &&& first@.wf() && second@.wf()
                &&& documents_text(first@, second@) == Some(s@)
                &&& starts_document(yaml_text(first@)->0)
                &&& starts_document(yaml_text(second@)->0)
            },
            Err(ManifestError::DuplicateKey) => !first@.wf() || !second@.wf(),
            Err(ManifestError::Serialization) => first@.wf() && second@.wf() && documents_text(
                first@,
                second@,
            ) is None,
            Err(_) => false,
        },
{
    if !is_well_formed(first) || !is_well_formed(second) {
        return Err(ManifestError::DuplicateKey);
    }
    match to_yaml_text(first) {
        Ok(head) => match to_yaml_text(second) {
            Ok(tail) => Ok(join_documents(head, tail.as_str())),
            Err(e) => Err(e),
        },
        Err(e) => Err(e),
    }
}

/// Puts the texts of two documents together, the first one first.
pub fn join_documents(first: String, second: &str) -> (r: String)
    ensures
        r@ == first@ + second@,
{
    let mut out = first;
    out.append(second);
    out
}

/// The deepest nesting of lists and mappings that a document read from a
/// text may have.
pub const MAX_DEPTH: usize = 128;

/// The tree is a document that a [`ConfigValue`] can hold: its integers fit
/// in 32 bits, its mappings have distinct keys, and its lists and mappings
/// are nested at most `depth` deep.
pub open spec fn fits(t: ConfigTree, depth: nat) -> bool
    decreases t,
{
    match t {
        ConfigTree::Str(_) => true,
        ConfigTree::Int(n) => i32::MIN <= n <= i32::MAX,
        ConfigTree::List(items) => {
            &&& depth > 0
            &&& forall|i: int|
                0 <= i < items.len() ==> fits(#[trigger] items[i], (depth - 1) as nat)
        },
        ConfigTree::Mapping(entries) => {
            &&& depth > 0
            &&& keys_distinct(entries)
            &&& forall|i: int|
                0 <= i < entries.len() ==> fits((#[trigger] entries[i]).1, (depth - 1) as nat)
        },
        ConfigTree::Foreign => false,
    }
}

/// A list fits exactly when there is depth left and its items fit below.
pub proof fn lemma_list_fits(items: Seq<ConfigTree>, depth: nat)
    ensures
        fits(ConfigTree::List(items), depth) <==> depth > 0 && forall|i: int|
            0 <= i < items.len() ==> fits(#[trigger] items[i], (depth - 1) as nat),
{
    let t = ConfigTree::List(items);
    assert(t->List_0 == items);
}

/// A mapping fits exactly when there is depth left, its keys are distinct
/// and its values fit below.
pub proof fn lemma_mapping_fits(entries: Seq<(Seq<char>, ConfigTree)>, depth: nat)
    ensures
        fits(ConfigTree::Mapping(entries), depth) <==> depth > 0 && keys_distinct(entries)
            && forall|i: int|
            0 <= i < entries.len() ==> fits((#[trigger] entries[i]).1, (depth - 1) as nat),
{
    let t = ConfigTree::Mapping(entries);
    assert(t->Mapping_0 == entries);
}

/// A tree that fits is a well-formed document.
pub proof fn lemma_fits_is_wf(t: ConfigTree, depth: nat)
    requires
        fits(t, depth),
    ensures
        t.wf(),
    decreases t,
{
    match t {
        ConfigTree::List(items) => {
            lemma_list_fits(items, depth);
            lemma_list_wf(items);
            assert forall|i: int| 0 <= i < items.len() implies (#[trigger] items[i]).wf() by {
                lemma_fits_is_wf(items[i], (depth - 1) as nat);
            }
        },
        ConfigTree::Mapping(entries) => {
            lemma_mapping_fits(entries, depth);
            lemma_mapping_wf(entries);
            assert forall|i: int| 0 <= i < entries.len() implies (#[trigger] entries[i]).1.wf() by {
                lemma_fits_is_wf(entries[i].1, (depth - 1) as nat);
            }
        },
        _ => {},
    }
}

/// The document that a YAML value holds, where it holds one that fits.
fn from_yaml(v: &serde_yaml::Value, depth: usize) -> (r: Option<ConfigValue>)
    ensures
        match r {
            Some(doc) => doc@ == yaml_tree(*v) && fits(yaml_tree(*v), depth as nat),
            None => !fits(yaml_tree(*v), depth as nat),
        },
    decreases depth,
{
    match yaml_as_string(v) {
        Some(s) => {
            return Some(ConfigValue::String(s));
        },
        None => {},
    }
    match yaml_as_i64(v) {
        Some(n) => {
            if n < -2147483648 || n > 2147483647 {
                return None;
            }
            return Some(ConfigValue::Int(n as i32));
        },
        None => {},
    }
    if depth == 0 {
        return None;
    }
    match yaml_as_sequence(v) {
        Some(items) => {
            let ghost model = yaml_trees(items@);
            proof {
                lemma_list_fits(model, depth as nat);
            }
            let mut out: Vec<ConfigValue> = Vec::new();
            let mut i: usize = 0;
            while i < items.len()
                invariant
                    0 <= i <= items.len(),
                    depth > 0,
                    out.len() == i,
                    model == yaml_trees(items@),
                    yaml_tree(*v) == ConfigTree::List(model),
                    forall|k: int|
                        0 <= k < i ==> (#[trigger] out@[k])@ == model[k] && fits(
                            model[k],
                            (depth - 1) as nat,
                        ),
                decreases items.len() - i,
            {
                match from_yaml(&items[i], depth - 1) {
                    Some(doc) => {
                        out.push(doc);
                    },
                    None => {
                        proof {
                            assert(!fits(model[i as int], (depth - 1) as nat));
                            lemma_list_fits(model, depth as nat);
                        }
                        return None;
                    },
                }
                i += 1;
            }
            proof {
                lemma_list_view(out);
                assert(items_view(out@) =~= model);
            }
            return Some(ConfigValue::List(out));
        },
        None => {},
    }
    match yaml_as_entries(v) {
        Some(pairs) => {
            let ghost model = parsed_entries(pairs@);
            proof {
                lemma_mapping_fits(model, depth as nat);
            }
            let mut out: Vec<(String, ConfigValue)> = Vec::new();
            let mut i: usize = 0;
            while i < pairs.len()
                invariant
                    0 <= i <= pairs.len(),
                    depth > 0,
                    out.len() == i,
                    model == parsed_entries(pairs@),
                    keys_are_text(pairs@) ==> yaml_tree(*v) == ConfigTree::Mapping(model),
                    !keys_are_text(pairs@) ==> yaml_tree(*v) is Foreign,
                    forall|k: int| 0 <= k < i ==> yaml_tree((#[trigger] pairs@[k]).0) is Str,
                    forall|k: int|
                        0 <= k < i ==> (#[trigger] out@[k]).0@ == model[k].0 && out@[k].1@
                            == model[k].1 && fits(model[k].1, (depth - 1) as nat),
                decreases pairs.len() - i,
            {
                let key = match yaml_as_string(&pairs[i].0) {
                    Some(s) => s,
                    None => {
                        assert(!keys_are_text(pairs@));
                        return None;
                    },
                };
                match from_yaml(&pairs[i].1, depth - 1) {
                    Some(doc) => {
                        out.push((key, doc));
                    },
                    None => {
                        proof {
                            assert(!fits(model[i as int].1, (depth - 1) as nat));
                            lemma_mapping_fits(model, depth as nat);
                        }
                        return None;
                    },
                }
                i += 1;
            }
            proof {
                assert(keys_are_text(pairs@));
                lemma_mapping_view(out);
                assert(entries_view(out@) =~= model);
                lemma_mapping_fits(model, depth as nat);
            }
            return Some(ConfigValue::Mapping(out));
        },
        None => {},
    }
    None
}

/// Every tree fits within the depth.
pub open spec fn all_fit(trees: Seq<ConfigTree>, depth: nat) -> bool {
    forall|i: int| 0 <= i < trees.len() ==> fits(#[trigger] trees[i], depth)
}

/// Reads the documents of a YAML text.
///
/// The text is refused where the YAML reader refuses it, and where one of
/// its documents holds a value that is no document or is nested deeper than
/// [`MAX_DEPTH`].
pub fn parse_documents(text: &str) -> (r: Result<Vec<ConfigValue>, ManifestError>)
    ensures
        match r {
            Ok(docs) => yaml_documents(text@) == Some(items_view(docs@)) && all_fit(
                items_view(docs@),
                MAX_DEPTH as nat,
            ),
            Err(ManifestError::Parse) => yaml_documents(text@) is None,
            Err(ManifestError::Unsupported) => yaml_documents(text@) is Some && !all_fit(
                yaml_documents(text@)->0,
                MAX_DEPTH as nat,
            ),
            Err(_) => false,
        },
{
    let values = match yaml_parse(text) {
        Ok(values) => values,
        Err(_) => {
            return Err(ManifestError::Parse);
        },
    };
    let ghost model = yaml_trees(values@);
    let mut docs: Vec<ConfigValue> = Vec::new();
    let mut i: usize = 0;
    while i < values.len()
        invariant
            0 <= i <= values.len(),
            docs.len() == i,
            model == yaml_trees(values@),
            yaml_documents(text@) == Some(model),
            forall|k: int|
                0 <= k < i ==> (#[trigger] docs@[k])@ == model[k] && fits(
                    model[k],
                    MAX_DEPTH as nat,
                ),
        decreases values.len() - i,
    {
        match from_yaml(&values[i], MAX_DEPTH) {
            Some(doc) => {
                docs.push(doc);
            },
            None => {
                assert(!fits(model[i as int], MAX_DEPTH as nat));
                return Err(ManifestError::Unsupported);
            },
        }
        i += 1;
    }
    assert(items_view(docs@) =~= model);
    Ok(docs)
}

/// The text of a run of documents written one after the other, each but the
/// last followed by the line `...`, where the YAML writer gives a text for
/// each.
pub open spec fn stream_text(docs: Seq<ConfigTree>) -> Option<Seq<char>>
    decreases docs.len(),
{
    if docs.len() == 0 {
        Some(Seq::empty())
    } else if docs.len() == 1 {
        yaml_text(docs[0])
    } else {
        match (stream_text(docs.drop_last()), yaml_text(docs.last())) {
            (Some(head), Some(tail)) => Some(head + document_end() + tail),
            _ => None,
        }
    }
}

/// A run of documents has no text where one of them has none.
pub proof fn lemma_stream_needs_every_text(docs: Seq<ConfigTree>, at: int)
    requires
        0 <= at < docs.len(),
        yaml_text(docs[at]) is None,
    ensures
        stream_text(docs) is None,
    decreases docs.len(),
{
    if docs.len() > 1 && at < docs.len() - 1 {
        assert(docs.drop_last()[at] == docs[at]);
        lemma_stream_needs_every_text(docs.drop_last(), at);
    }
}

/// Writes a run of documents as one YAML text: the documents in order, each
/// but the last followed by the line `...`, as one serializer of
/// `serde_yaml` writes them.
pub fn to_yaml_stream(docs: &Vec<ConfigValue>) -> (r: Result<String, ManifestError>)
    ensures
        match r {
            Ok(s) => all_wf(items_view(docs@)) && stream_text(items_view(docs@)) == Some(s@),
            Err(ManifestError::DuplicateKey) => !all_wf(items_view(docs@)),
            Err(ManifestError::Serialization) => all_wf(items_view(docs@)) && stream_text(
                items_view(docs@),
            ) is None,
            Err(_) => false,
        },
{
    if !are_well_formed(docs) {
        return Err(ManifestError::DuplicateKey);
    }
    let ghost model = items_view(docs@);
    let mut serializer = yaml_serializer();
    let mut i: usize = 0;
    proof {
        assert(model.take(0) =~= Seq::<ConfigTree>::empty());
    }
    while i < docs.len()
        invariant
            0 <= i <= docs.len(),
            model == items_view(docs@),
            all_wf(model),
            serializer_documents(serializer) == i,
            stream_text(model.take(i as int)) == Some(serializer_text(serializer)),
        decreases docs.len() - i,
    {
        proof {
            assert(model.take(i + 1).drop_last() =~= model.take(i as int));
            assert(model.take(i + 1).last() == model[i as int]);
            assert(model[i as int].wf());
        }
        let ghost before = serializer_text(serializer);
        let value = to_yaml(&docs[i]);
        match yaml_serialize(&mut serializer, &value) {
            Ok(_) => {
                proof {
                    let text = yaml_text(model[i as int])->0;
                    if i == 0 {
                        assert(before + document_gap(0) + text =~= text);
                    }
                }
            },
            Err(_) => {
                proof {
                    lemma_stream_needs_every_text(model, i as int);
                }
                return Err(ManifestError::Serialization);
            },
        }
        i += 1;
    }
    proof {
        assert(model.take(i as int) =~= model);
    }
    Ok(yaml_serialized(serializer))
}

} // verus!
