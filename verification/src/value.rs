//! The generic document value from which every manifest is assembled.
//!
//! A document is text, an integer, a list of documents, or a mapping from
//! text keys to documents. A mapping keeps its entries in the order in which
//! their keys were first inserted, so that what is written out for a document
//! depends on nothing but the document.

use vstd::prelude::*;
use crate::text::same_text;

verus! {

/// Mathematical model of a document.
pub enum ConfigTree {
    /// A text.
    Str(Seq<char>),
    /// An integer.
    Int(int),
    /// A list of documents.
    List(Seq<ConfigTree>),
    /// A mapping from text keys to documents, in the order of insertion.
    Mapping(Seq<(Seq<char>, ConfigTree)>),
    /// Not a document. No [`ConfigValue`] has this model: it stands for what
    /// a YAML text can hold beyond the four shapes above, such as a null, a
    /// boolean, a float or a mapping with a key that is no text.
    Foreign,
}

/// A document value as it is held at run time.
#[derive(Debug, PartialEq, Eq)]
pub enum ConfigValue {
    String(String),
    Int(i32),
    List(Vec<ConfigValue>),
    Mapping(Vec<(String, ConfigValue)>),
}

/// No key occurs twice among the entries.
pub open spec fn keys_distinct(entries: Seq<(Seq<char>, ConfigTree)>) -> bool {
    forall|i: int, j: int| 0 <= i < j < entries.len() ==> entries[i].0 != entries[j].0
}

/// Some entry has the key.
pub open spec fn has_key(entries: Seq<(Seq<char>, ConfigTree)>, key: Seq<char>) -> bool {
    exists|i: int| 0 <= i < entries.len() && #[trigger] entries[i].0 == key
}

/// The entry at `i` is the first one with the key.
pub open spec fn is_first_with_key(
    entries: Seq<(Seq<char>, ConfigTree)>,
    key: Seq<char>,
    i: int,
) -> bool {
    &&& 0 <= i < entries.len()
    &&& entries[i].0 == key
    &&& forall|j: int| 0 <= j < i ==> #[trigger] entries[j].0 != key
}

/// The position of the first entry with the key, where there is one.
pub open spec fn key_index(entries: Seq<(Seq<char>, ConfigTree)>, key: Seq<char>) -> int {
    choose|i: int| is_first_with_key(entries, key, i)
}

/// The document stored under the key, if any.
pub open spec fn entries_get(entries: Seq<(Seq<char>, ConfigTree)>, key: Seq<char>) -> Option<
    ConfigTree,
> {
    if has_key(entries, key) {
        Some(entries[key_index(entries, key)].1)
    } else {
        None
    }
}

/// The entries after `value` was written under `key`: an entry that already
/// has the key keeps its place and gets the new value, a new key goes to the
/// end.
pub open spec fn entries_insert(
    entries: Seq<(Seq<char>, ConfigTree)>,
    key: Seq<char>,
    value: ConfigTree,
) -> Seq<(Seq<char>, ConfigTree)> {
    if has_key(entries, key) {
        entries.update(key_index(entries, key), (key, value))
    } else {
        entries.push((key, value))
    }
}

/// The models of a run of entries as they are held at run time.
pub open spec fn entries_view(entries: Seq<(String, ConfigValue)>) -> Seq<(Seq<char>, ConfigTree)> {
    Seq::new(entries.len(), |i: int| (entries[i].0@, entries[i].1@))
}

/// The models of a run of documents as they are held at run time.
pub open spec fn items_view(items: Seq<ConfigValue>) -> Seq<ConfigTree> {
    Seq::new(items.len(), |i: int| items[i]@)
}

impl ConfigTree {
    /// The tree is a document, and every mapping in it, at any depth, has
    /// distinct keys.
    pub open spec fn wf(self) -> bool
        decreases self,
    {
        match self {
            ConfigTree::Str(_) => true,
            ConfigTree::Int(_) => true,
            ConfigTree::List(items) => {
                forall|i: int| 0 <= i < items.len() ==> (#[trigger] items[i]).wf()
            },
            ConfigTree::Mapping(entries) => {
                &&& keys_distinct(entries)
                &&& forall|i: int| 0 <= i < entries.len() ==> (#[trigger] entries[i]).1.wf()
            },
            ConfigTree::Foreign => false,
        }
    }
}

impl ConfigValue {
    /// The document that this value holds.
    pub open spec fn tree(self) -> ConfigTree
        decreases self,
    {
        match self {
            ConfigValue::String(s) => ConfigTree::Str(s@),
            ConfigValue::Int(i) => ConfigTree::Int(i as int),
            ConfigValue::List(items) => ConfigTree::List(
                Seq::new(
                    items@.len(),
                    |i: int|
                        if 0 <= i < items@.len() {
                            items@[i].tree()
                        } else {
                            ConfigTree::Int(0)
                        },
                ),
            ),
            ConfigValue::Mapping(entries) => ConfigTree::Mapping(
                Seq::new(
                    entries@.len(),
                    |i: int|
                        if 0 <= i < entries@.len() {
                            (entries@[i].0@, entries@[i].1.tree())
                        } else {
                            (Seq::empty(), ConfigTree::Int(0))
                        },
                ),
            ),
        }
    }
}

impl View for ConfigValue {
    type V = ConfigTree;

    open spec fn view(&self) -> ConfigTree {
        self.tree()
    }
}

/// A list is well formed exactly when its items are.
pub proof fn lemma_list_wf(items: Seq<ConfigTree>)
    ensures
        ConfigTree::List(items).wf() <==> forall|i: int|
            0 <= i < items.len() ==> (#[trigger] items[i]).wf(),
{
    let t = ConfigTree::List(items);
    assert(t->List_0 == items);
}

/// A mapping is well formed exactly when its keys are distinct and its
/// values are well formed.
pub proof fn lemma_mapping_wf(entries: Seq<(Seq<char>, ConfigTree)>)
    ensures
        ConfigTree::Mapping(entries).wf() <==> keys_distinct(entries) && forall|i: int|
            0 <= i < entries.len() ==> (#[trigger] entries[i]).1.wf(),
{
    let t = ConfigTree::Mapping(entries);
    assert(t->Mapping_0 == entries);
}

/// A mapping of one entry is well formed when its value is.
pub proof fn lemma_wf_1(e: Seq<(Seq<char>, ConfigTree)>)
    requires
        e.len() == 1,
        e[0].1.wf(),
    ensures
        ConfigTree::Mapping(e).wf(),
{
    lemma_mapping_wf(e);
}

/// A mapping of two entries is well formed when the keys differ and the
/// values are well formed.
pub proof fn lemma_wf_2(e: Seq<(Seq<char>, ConfigTree)>)
    requires
        e.len() == 2,
        e[0].0 != e[1].0,
        e[0].1.wf(),
        e[1].1.wf(),
    ensures
        ConfigTree::Mapping(e).wf(),
{
    lemma_mapping_wf(e);
}

/// A mapping of three entries is well formed when the keys differ from each
/// other and the values are well formed.
pub proof fn lemma_wf_3(e: Seq<(Seq<char>, ConfigTree)>)
    requires
        e.len() == 3,
        e[0].0 != e[1].0,
        e[0].0 != e[2].0,
        e[1].0 != e[2].0,
        e[0].1.wf(),
        e[1].1.wf(),
        e[2].1.wf(),
    ensures
        ConfigTree::Mapping(e).wf(),
{
    lemma_mapping_wf(e);
}

/// A mapping of four entries is well formed when the keys differ from each
/// other and the values are well formed.
pub proof fn lemma_wf_4(e: Seq<(Seq<char>, ConfigTree)>)
    requires
        e.len() == 4,
        e[0].0 != e[1].0,
        e[0].0 != e[2].0,
        e[0].0 != e[3].0,
        e[1].0 != e[2].0,
        e[1].0 != e[3].0,
        e[2].0 != e[3].0,
        e[0].1.wf(),
        e[1].1.wf(),
        e[2].1.wf(),
        e[3].1.wf(),
    ensures
        ConfigTree::Mapping(e).wf(),
{
    lemma_mapping_wf(e);
}

/// A mapping of five entries is well formed when the keys differ from each
/// other and the values are well formed.
pub proof fn lemma_wf_5(e: Seq<(Seq<char>, ConfigTree)>)
    requires
        e.len() == 5,
        e[0].0 != e[1].0,
        e[0].0 != e[2].0,
        e[0].0 != e[3].0,
        e[0].0 != e[4].0,
        e[1].0 != e[2].0,
        e[1].0 != e[3].0,
        e[1].0 != e[4].0,
        e[2].0 != e[3].0,
        e[2].0 != e[4].0,
        e[3].0 != e[4].0,
        e[0].1.wf(),
        e[1].1.wf(),
        e[2].1.wf(),
        e[3].1.wf(),
        e[4].1.wf(),
    ensures
        ConfigTree::Mapping(e).wf(),
{
    lemma_mapping_wf(e);
}

/// A list of one item is well formed when the item is.
pub proof fn lemma_singleton_wf(item: ConfigTree)
    requires
        item.wf(),
    ensures
        ConfigTree::List(seq![item]).wf(),
{
    lemma_list_wf(seq![item]);
}

/// The model of a list is the list of its items' models.
pub proof fn lemma_list_view(items: Vec<ConfigValue>)
    ensures
        ConfigValue::List(items)@ == ConfigTree::List(items_view(items@)),
{
    assert(ConfigValue::List(items)@->List_0 =~= items_view(items@));
}

/// The model of a mapping is the run of its entries' models.
pub proof fn lemma_mapping_view(entries: Vec<(String, ConfigValue)>)
    ensures
        ConfigValue::Mapping(entries)@ == ConfigTree::Mapping(entries_view(entries@)),
{
    let model = ConfigValue::Mapping(entries)@->Mapping_0;
    assert(model.len() == entries.len());
    assert forall|i: int| 0 <= i < model.len() implies model[i] == entries_view(entries@)[i] by {
        assert(model[i] == (entries@[i].0@, entries@[i].1@));
    }
    assert(model =~= entries_view(entries@));
}

/// The first entry with a key is the only position that `key_index` can name.
pub proof fn lemma_key_index(entries: Seq<(Seq<char>, ConfigTree)>, key: Seq<char>, i: int)
    requires
        is_first_with_key(entries, key, i),
    ensures
        has_key(entries, key),
        key_index(entries, key) == i,
{
    let k = key_index(entries, key);
    assert(is_first_with_key(entries, key, k));
    if k < i {
        assert(entries[k].0 != key);
    }
    if i < k {
        assert(entries[i].0 != key);
    }
}

/// Among the entries that have a key there is a first one, and `key_index`
/// names it.
pub proof fn lemma_key_index_is_first(entries: Seq<(Seq<char>, ConfigTree)>, key: Seq<char>)
    requires
        has_key(entries, key),
    ensures
        is_first_with_key(entries, key, key_index(entries, key)),
{
    let w = choose|i: int| 0 <= i < entries.len() && #[trigger] entries[i].0 == key;
    lemma_first_exists(entries, key, w);
}

/// Before or at an entry that has a key stands the first entry that has it.
pub proof fn lemma_first_exists(entries: Seq<(Seq<char>, ConfigTree)>, key: Seq<char>, w: int)
    requires
        0 <= w < entries.len(),
        entries[w].0 == key,
    ensures
        exists|i: int| is_first_with_key(entries, key, i),
    decreases w,
{
    if exists|j: int| 0 <= j < w && #[trigger] entries[j].0 == key {
        let j = choose|j: int| 0 <= j < w && #[trigger] entries[j].0 == key;
        lemma_first_exists(entries, key, j);
    } else {
        assert(is_first_with_key(entries, key, w));
    }
}

/// Replacing the value of one entry by a well-formed document keeps a
/// mapping well formed.
pub proof fn lemma_update_keeps_wf(
    entries: Seq<(Seq<char>, ConfigTree)>,
    at: int,
    value: ConfigTree,
)
    requires
        ConfigTree::Mapping(entries).wf(),
        0 <= at < entries.len(),
        value.wf(),
    ensures
        ConfigTree::Mapping(entries.update(at, (entries[at].0, value))).wf(),
{
    let after = entries.update(at, (entries[at].0, value));
    lemma_mapping_wf(entries);
    lemma_mapping_wf(after);
    assert forall|i: int, j: int| 0 <= i < j < after.len() implies after[i].0 != after[j].0 by {
        assert(after[i].0 == entries[i].0);
        assert(after[j].0 == entries[j].0);
    }
    assert forall|i: int| 0 <= i < after.len() implies (#[trigger] after[i]).1.wf() by {
        if i != at {
            assert(after[i] == entries[i]);
        }
    }
}

/// The last write for a key wins: what was written under a key is what is
/// read under it, whatever stood there before, and the number of entries
/// grows only where the key is new.
pub proof fn lemma_last_write_wins(
    entries: Seq<(Seq<char>, ConfigTree)>,
    key: Seq<char>,
    value: ConfigTree,
)
    ensures
        entries_get(entries_insert(entries, key, value), key) == Some(value),
        has_key(entries, key) ==> entries_insert(entries, key, value).len() == entries.len(),
        !has_key(entries, key) ==> entries_insert(entries, key, value).len() == entries.len() + 1,
{
    let after = entries_insert(entries, key, value);
    let at = if has_key(entries, key) {
        key_index(entries, key)
    } else {
        entries.len() as int
    };
    if has_key(entries, key) {
        lemma_key_index_is_first(entries, key);
    }
    assert(is_first_with_key(after, key, at)) by {
        assert forall|j: int| 0 <= j < at implies #[trigger] after[j].0 != key by {
            assert(after[j] == entries[j]);
        }
    }
    lemma_key_index(after, key, at);
}

/// Writing under a key keeps the keys distinct.
pub proof fn lemma_insert_keeps_keys_distinct(
    entries: Seq<(Seq<char>, ConfigTree)>,
    key: Seq<char>,
    value: ConfigTree,
)
    requires
        keys_distinct(entries),
    ensures
        keys_distinct(entries_insert(entries, key, value)),
        has_key(entries_insert(entries, key, value), key),
        entries_get(entries_insert(entries, key, value), key) == Some(value),
{
    let after = entries_insert(entries, key, value);
    if has_key(entries, key) {
        let w = choose|i: int| 0 <= i < entries.len() && #[trigger] entries[i].0 == key;
        assert(is_first_with_key(entries, key, w)) by {
            assert forall|j: int| 0 <= j < w implies #[trigger] entries[j].0 != key by {}
        }
        lemma_key_index(entries, key, w);
        assert(after[w].0 == key);
        assert(is_first_with_key(after, key, w)) by {
            assert forall|j: int| 0 <= j < w implies #[trigger] after[j].0 != key by {
                assert(after[j] == entries[j]);
            }
        }
        lemma_key_index(after, key, w);
    } else {
        let w = entries.len() as int;
        assert(after[w].0 == key);
        assert(is_first_with_key(after, key, w)) by {
            assert forall|j: int| 0 <= j < w implies #[trigger] after[j].0 != key by {
                assert(after[j] == entries[j]);
            }
        }
        lemma_key_index(after, key, w);
        assert forall|i: int, j: int| 0 <= i < j < after.len() implies after[i].0 != after[j].0 by {
            if j == w {
                assert(after[i] == entries[i]);
                assert(entries[i].0 != key);
            }
        }
    }
}

/// Writing a well-formed document under a key of a well-formed mapping gives
/// a well-formed mapping.
pub proof fn lemma_insert_keeps_wf(
    entries: Seq<(Seq<char>, ConfigTree)>,
    key: Seq<char>,
    value: ConfigTree,
)
    requires
        ConfigTree::Mapping(entries).wf(),
        value.wf(),
    ensures
        ConfigTree::Mapping(entries_insert(entries, key, value)).wf(),
{
    let after = entries_insert(entries, key, value);
    lemma_mapping_wf(entries);
    lemma_mapping_wf(after);
    lemma_insert_keeps_keys_distinct(entries, key, value);
    if has_key(entries, key) {
        let w = choose|i: int| 0 <= i < entries.len() && #[trigger] entries[i].0 == key;
        assert(is_first_with_key(entries, key, w)) by {
            assert forall|j: int| 0 <= j < w implies #[trigger] entries[j].0 != key by {}
        }
        lemma_key_index(entries, key, w);
    }
    assert forall|i: int| 0 <= i < after.len() implies (#[trigger] after[i]).1.wf() by {
        if has_key(entries, key) {
            if i != key_index(entries, key) {
                assert(after[i] == entries[i]);
            }
        } else {
            if i < entries.len() {
                assert(after[i] == entries[i]);
            }
        }
    }
}

/// Writing under one key leaves what stands under every other key as it
/// was.
pub proof fn lemma_insert_keeps_other_keys(
    entries: Seq<(Seq<char>, ConfigTree)>,
    key: Seq<char>,
    value: ConfigTree,
    other: Seq<char>,
)
    requires
        other != key,
    ensures
        has_key(entries_insert(entries, key, value), other) == has_key(entries, other),
        entries_get(entries_insert(entries, key, value), other) == entries_get(entries, other),
{
    let after = entries_insert(entries, key, value);
    if has_key(entries, key) {
        lemma_key_index_is_first(entries, key);
    }
    if has_key(entries, other) {
        lemma_key_index_is_first(entries, other);
        let at = key_index(entries, other);
        assert(after[at] == entries[at]);
        assert(is_first_with_key(after, other, at)) by {
            assert forall|j: int| 0 <= j < at implies #[trigger] after[j].0 != other by {
                if after[j].0 == other {
                    assert(after[j] == entries[j]);
                }
            }
        }
        lemma_key_index(after, other, at);
    } else if has_key(after, other) {
        let w = choose|i: int| 0 <= i < after.len() && #[trigger] after[i].0 == other;
        if w < entries.len() {
            assert(after[w].0 == entries[w].0);
            assert(entries[w].0 == other);
        }
    }
}

/// The position of the first entry with the key.
pub fn find_key(entries: &Vec<(String, ConfigValue)>, key: &str) -> (r: Option<usize>)
    ensures
        r is Some <==> has_key(entries_view(entries@), key@),
        r matches Some(i) ==> is_first_with_key(entries_view(entries@), key@, i as int) && i
            == key_index(entries_view(entries@), key@),
{
    let ghost model = entries_view(entries@);
    let mut i: usize = 0;
    while i < entries.len()
        invariant
            0 <= i <= entries.len(),
            model == entries_view(entries@),
            forall|j: int| 0 <= j < i ==> #[trigger] model[j].0 != key@,
        decreases entries.len() - i,
    {
        if same_text(entries[i].0.as_str(), key) {
            proof {
                assert(model[i as int].0 == key@);
                lemma_key_index(model, key@, i as int);
            }
            return Some(i);
        }
        i += 1;
    }
    None
}

/// Writes `value` under `key`: the last write for a key wins, and a key keeps
/// the place at which it was first inserted. Well-formed entries stay well
/// formed when a well-formed document is written.
pub fn insert_entry(entries: &mut Vec<(String, ConfigValue)>, key: &str, value: ConfigValue)
    ensures
        entries_view(final(entries)@) == entries_insert(
            entries_view(old(entries)@),
            key@,
            value@,
        ),
        ConfigTree::Mapping(entries_view(old(entries)@)).wf() && value@.wf()
            ==> ConfigTree::Mapping(entries_view(final(entries)@)).wf(),
{
    proof {
        if ConfigTree::Mapping(entries_view(entries@)).wf() && value@.wf() {
            lemma_insert_keeps_wf(entries_view(entries@), key@, value@);
        }
    }
    let found = find_key(entries, key);
    match found {
        Some(i) => {
            entries.set(i, (key.to_owned(), value));
            assert(entries_view(entries@) =~= entries_insert(
                entries_view(old(entries)@),
                key@,
                value@,
            ));
        },
        None => {
            entries.push((key.to_owned(), value));
            assert(entries_view(entries@) =~= entries_insert(
                entries_view(old(entries)@),
                key@,
                value@,
            ));
        },
    }
}

impl ConfigValue {
    /// A text document.
    pub fn text(s: &str) -> (r: ConfigValue)
        ensures
            r@ == ConfigTree::Str(s@),
            r@.wf(),
    {
        ConfigValue::String(s.to_owned())
    }

    /// A text document that takes over an owned string.
    pub fn owned_text(s: String) -> (r: ConfigValue)
        ensures
            r@ == ConfigTree::Str(s@),
            r@.wf(),
    {
        ConfigValue::String(s)
    }

    /// An integer document.
    pub fn integer(i: i32) -> (r: ConfigValue)
        ensures
            r@ == ConfigTree::Int(i as int),
            r@.wf(),
    {
        ConfigValue::Int(i)
    }

    /// A list document with the given items. It is well formed when the
    /// items are.
    pub fn list(items: Vec<ConfigValue>) -> (r: ConfigValue)
        ensures
            r@ == ConfigTree::List(items_view(items@)),
            r@.wf() <==> forall|i: int|
                0 <= i < items.len() ==> (#[trigger] items_view(items@)[i]).wf(),
    {
        proof {
            lemma_list_view(items);
            lemma_list_wf(items_view(items@));
        }
        ConfigValue::List(items)
    }

    /// A list document with a single item.
    pub fn singleton(item: ConfigValue) -> (r: ConfigValue)
        ensures
            r@ == ConfigTree::List(seq![item@]),
            item@.wf() ==> r@.wf(),
    {
        let mut items: Vec<ConfigValue> = Vec::new();
        items.push(item);
        proof {
            lemma_list_view(items);
            assert(items_view(items@) =~= seq![item@]);
            if item@.wf() {
                lemma_singleton_wf(item@);
            }
        }
        ConfigValue::List(items)
    }

    /// A mapping document with the given entries. It is well formed when
    /// the keys differ from each other and the values are well formed.
    pub fn mapping(entries: Vec<(String, ConfigValue)>) -> (r: ConfigValue)
        ensures
            r@ == ConfigTree::Mapping(entries_view(entries@)),
            r@.wf() <==> keys_distinct(entries_view(entries@)) && forall|i: int|
                0 <= i < entries.len() ==> (#[trigger] entries_view(entries@)[i]).1.wf(),
    {
        proof {
            lemma_mapping_view(entries);
            lemma_mapping_wf(entries_view(entries@));
        }
        ConfigValue::Mapping(entries)
    }

    /// The document stored under `key`, where this is a mapping that has the
    /// key.
    pub fn get(&self, key: &str) -> (r: Option<&ConfigValue>)
        ensures
            match self@ {
                ConfigTree::Mapping(entries) => match r {
                    Some(v) => entries_get(entries, key@) == Some(v@),
                    None => entries_get(entries, key@) is None,
                },
                _ => r is None,
            },
    {
        match self {
            ConfigValue::Mapping(entries) => {
                proof {
                    lemma_mapping_view(*entries);
                }
                match find_key(entries, key) {
                    Some(i) => Some(&entries[i].1),
                    None => None,
                }
            },
            _ => None,
        }
    }
}

/// Entries for a mapping that is about to be filled.
pub fn new_entries() -> (entries: Vec<(String, ConfigValue)>)
    ensures
        entries_view(entries@) == Seq::<(Seq<char>, ConfigTree)>::empty(),
        ConfigTree::Mapping(entries_view(entries@)).wf(),
{
    let entries: Vec<(String, ConfigValue)> = Vec::new();
    proof {
        assert(entries_view(entries@) =~= Seq::<(Seq<char>, ConfigTree)>::empty());
        lemma_mapping_wf(entries_view(entries@));
    }
    entries
}

/// Adds an entry at the end, whatever keys are there already. Where the key
/// is there already the mapping is no longer well formed, so this is for
/// keys that are known to be new.
pub(crate) fn push_entry(entries: &mut Vec<(String, ConfigValue)>, key: &str, value: ConfigValue)
    ensures
        entries_view(final(entries)@) == entries_view(old(entries)@).push((key@, value@)),
{
    entries.push((key.to_owned(), value));
    assert(entries_view(entries@) =~= entries_view(old(entries)@).push((key@, value@)));
}

/// Whether no key occurs twice among the entries.
pub fn has_distinct_keys(entries: &Vec<(String, ConfigValue)>) -> (r: bool)
    ensures
        r == keys_distinct(entries_view(entries@)),
{
    let ghost model = entries_view(entries@);
    let mut j: usize = 0;
    while j < entries.len()
        invariant
            0 <= j <= entries.len(),
            model == entries_view(entries@),
            forall|a: int, b: int| 0 <= a < b < j ==> model[a].0 != model[b].0,
        decreases entries.len() - j,
    {
        let mut i: usize = 0;
        while i < j
            invariant
                0 <= i <= j < entries.len(),
                model == entries_view(entries@),
                forall|a: int| 0 <= a < i ==> model[a].0 != model[j as int].0,
            decreases j - i,
        {
            if same_text(entries[i].0.as_str(), entries[j].0.as_str()) {
                assert(model[i as int].0 == model[j as int].0);
                return false;
            }
            i += 1;
        }
        j += 1;
    }
    true
}

/// Whether every mapping of the document, at any depth, has distinct keys.
pub fn is_well_formed(doc: &ConfigValue) -> (r: bool)
    ensures
        r == doc@.wf(),
    decreases doc,
{
    match doc {
        ConfigValue::String(_) => true,
        ConfigValue::Int(_) => true,
        ConfigValue::List(items) => {
            proof {
                lemma_list_view(*items);
                lemma_list_wf(items_view(items@));
            }
            let ghost model = items_view(items@);
            let mut i: usize = 0;
            while i < items.len()
                invariant
                    0 <= i <= items.len(),
                    model == items_view(items@),
                    doc@ == ConfigTree::List(model),
                    forall|k: int| 0 <= k < items.len() ==> decreases_to!(doc => items@[k]),
                    forall|k: int| 0 <= k < i ==> (#[trigger] model[k]).wf(),
                decreases items.len() - i,
            {
                if !is_well_formed(&items[i]) {
                    proof {
                        assert(!model[i as int].wf());
                        lemma_list_wf(model);
                    }
                    return false;
                }
                i += 1;
            }
            true
        },
        ConfigValue::Mapping(entries) => {
            proof {
                lemma_mapping_view(*entries);
                lemma_mapping_wf(entries_view(entries@));
            }
            if !has_distinct_keys(entries) {
                return false;
            }
            let ghost model = entries_view(entries@);
            let mut i: usize = 0;
            while i < entries.len()
                invariant
                    0 <= i <= entries.len(),
                    model == entries_view(entries@),
                    doc@ == ConfigTree::Mapping(model),
                    keys_distinct(model),
                    forall|k: int| 0 <= k < entries.len() ==> decreases_to!(doc => entries@[k].1),
                    forall|k: int| 0 <= k < i ==> (#[trigger] model[k]).1.wf(),
                decreases entries.len() - i,
            {
                if !is_well_formed(&entries[i].1) {
                    proof {
                        assert(!model[i as int].1.wf());
                        lemma_mapping_wf(model);
                    }
                    return false;
                }
                i += 1;
            }
            true
        },
    }
}

/// Every tree is a well-formed document.
pub open spec fn all_wf(trees: Seq<ConfigTree>) -> bool {
    forall|i: int| 0 <= i < trees.len() ==> (#[trigger] trees[i]).wf()
}

/// Whether every document of the run is well formed.
pub fn are_well_formed(docs: &Vec<ConfigValue>) -> (r: bool)
    ensures
        r == all_wf(items_view(docs@)),
{
    let ghost model = items_view(docs@);
    let mut i: usize = 0;
    while i < docs.len()
        invariant
            0 <= i <= docs.len(),
            model == items_view(docs@),
            forall|k: int| 0 <= k < i ==> (#[trigger] model[k]).wf(),
        decreases docs.len() - i,
    {
        if !is_well_formed(&docs[i]) {
            assert(!model[i as int].wf());
            return false;
        }
        i += 1;
    }
    true
}

} // verus!
