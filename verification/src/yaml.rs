//! A plain model of a YAML document, with the mapping operations that the
//! installer performs on DSH and Hermes configuration files.
//!
//! Mappings keep their entries in order as a list of `(key, value)` pairs;
//! a parsed mapping never holds a key twice.  The operations follow
//! `serde_yaml`'s `Mapping`: `insert` replaces the value of a present key in
//! place and appends a new key at the end, and `remove` moves the last entry
//! into the removed entry's place.  Reading a value "as" a mapping, sequence,
//! string or boolean looks through tags, as `serde_yaml::Value` does.
use vstd::prelude::*;

use crate::text;

verus! {

/// A YAML value.  Numbers are kept in their textual form since no logic here
/// reads them.
#[derive(Debug)]
pub enum Yaml {
    Null,
    Bool(bool),
    Number(String),
    Str(String),
    Sequence(Vec<Yaml>),
    Mapping(Vec<(Yaml, Yaml)>),
    Tagged(String, Box<Yaml>),
}

/// The mathematical content of a [`Yaml`] value.
pub enum YamlV {
    Null,
    Bool(bool),
    Number(Seq<char>),
    Str(Seq<char>),
    Sequence(Seq<YamlV>),
    Mapping(Seq<(YamlV, YamlV)>),
    Tagged(Seq<char>, Box<YamlV>),
}

pub open spec fn view_items(items: Seq<Yaml>) -> Seq<YamlV>
    decreases items,
{
    if items.len() == 0 {
        Seq::empty()
    } else {
        seq![view_yaml(items[0])] + view_items(items.drop_first())
    }
}

pub open spec fn view_entries(items: Seq<(Yaml, Yaml)>) -> Seq<(YamlV, YamlV)>
    decreases items,
{
    if items.len() == 0 {
        Seq::empty()
    } else {
        seq![(view_yaml(items[0].0), view_yaml(items[0].1))] + view_entries(items.drop_first())
    }
}

pub open spec fn view_yaml(y: Yaml) -> YamlV
    decreases y,
{
    match y {
        Yaml::Null => YamlV::Null,
        Yaml::Bool(b) => YamlV::Bool(b),
        Yaml::Number(s) => YamlV::Number(s@),
        Yaml::Str(s) => YamlV::Str(s@),
        Yaml::Sequence(v) => YamlV::Sequence(view_items(v@)),
        Yaml::Mapping(v) => YamlV::Mapping(view_entries(v@)),
        Yaml::Tagged(t, b) => YamlV::Tagged(t@, Box::new(view_yaml(*b))),
    }
}

impl View for Yaml {
    type V = YamlV;

    open spec fn view(&self) -> YamlV {
        view_yaml(*self)
    }
}

pub proof fn lemma_view_entries(items: Seq<(Yaml, Yaml)>)
    ensures
        view_entries(items).len() == items.len(),
        forall|i: int|
            0 <= i < items.len() ==> #[trigger] view_entries(items)[i] == (
                view_yaml(items[i].0),
                view_yaml(items[i].1),
            ),
    decreases items.len(),
{
    if items.len() > 0 {
        lemma_view_entries(items.drop_first());
        assert forall|i: int| 0 <= i < items.len() implies #[trigger] view_entries(items)[i] == (
            view_yaml(items[i].0),
            view_yaml(items[i].1),
        ) by {
            if i > 0 {
                assert(items.drop_first()[i - 1] == items[i]);
            }
        }
    }
}

pub proof fn lemma_view_items(items: Seq<Yaml>)
    ensures
        view_items(items).len() == items.len(),
        forall|i: int| 0 <= i < items.len() ==> #[trigger] view_items(items)[i] == view_yaml(items[i]),
    decreases items.len(),
{
    if items.len() > 0 {
        lemma_view_items(items.drop_first());
        assert forall|i: int| 0 <= i < items.len() implies #[trigger] view_items(items)[i] == view_yaml(items[i]) by {
            if i > 0 {
                assert(items.drop_first()[i - 1] == items[i]);
            }
        }
    }
}

// ---------------------------------------------------------------------------
// Tags
// ---------------------------------------------------------------------------

/// The value under any tags.
pub open spec fn untag(v: YamlV) -> YamlV
    decreases v,
{
    match v {
        YamlV::Tagged(_, b) => untag(*b),
        _ => v,
    }
}

/// The tags around a value, outermost first.
pub open spec fn tags_of(v: YamlV) -> Seq<Seq<char>>
    decreases v,
{
    match v {
        YamlV::Tagged(t, b) => seq![t] + tags_of(*b),
        _ => Seq::empty(),
    }
}

/// `core` wrapped in `tags`, outermost first.
pub open spec fn wrap(tags: Seq<Seq<char>>, core: YamlV) -> YamlV
    decreases tags.len(),
{
    if tags.len() == 0 {
        core
    } else {
        YamlV::Tagged(tags[0], Box::new(wrap(tags.drop_first(), core)))
    }
}

/// `v` with the value under its tags replaced by `core`.
pub open spec fn retag(v: YamlV, core: YamlV) -> YamlV {
    wrap(tags_of(v), core)
}

pub proof fn lemma_wrap_push(tags: Seq<Seq<char>>, t: Seq<char>, core: YamlV)
    ensures
        wrap(tags.push(t), core) == wrap(tags, YamlV::Tagged(t, Box::new(core))),
    decreases tags.len(),
{
    if tags.len() > 0 {
        assert(tags.push(t).drop_first() =~= tags.drop_first().push(t));
        assert(tags.push(t)[0] == tags[0]);
        lemma_wrap_push(tags.drop_first(), t, core);
    } else {
        assert(tags.push(t).drop_first() =~= Seq::<Seq<char>>::empty());
        assert(tags.push(t)[0] == t);
        assert(wrap(tags.push(t), core) == YamlV::Tagged(t, Box::new(wrap(Seq::<Seq<char>>::empty(), core))));
    }
}

pub proof fn lemma_untag_retag(v: YamlV)
    ensures
        retag(v, untag(v)) == v,
        untag(v) !is Tagged,
    decreases v,
{
    match v {
        YamlV::Tagged(t, b) => {
            lemma_untag_retag(*b);
            assert((seq![t] + tags_of(*b)).drop_first() =~= tags_of(*b));
        },
        _ => {},
    }
}

/// Splits a value into its tags and the value under them.
pub fn split_tags(y: Yaml) -> (res: (Vec<String>, Yaml))
    ensures
        text::string_views(res.0@) == tags_of(y@),
        res.1@ == untag(y@),
    decreases y,
{
    match y {
        Yaml::Tagged(t, b) => {
            let (mut tags, core) = split_tags(*b);
            let ghost rest = tags@;
            tags.insert(0, t);
            assert(text::string_views(tags@) =~= seq![t@] + text::string_views(rest));
            (tags, core)
        },
        _ => {
            let tags: Vec<String> = Vec::new();
            assert(text::string_views(tags@) =~= Seq::<Seq<char>>::empty());
            (tags, y)
        },
    }
}

/// Puts `core` back under `tags`.
pub fn wrap_tags(tags: Vec<String>, core: Yaml) -> (res: Yaml)
    ensures
        res@ == wrap(text::string_views(tags@), core@),
{
    let ghost all = text::string_views(tags@);
    let mut tags = tags;
    let mut cur = core;
    while tags.len() > 0
        invariant
            wrap(all, core@) == wrap(text::string_views(tags@), cur@),
        decreases tags.len(),
    {
        let ghost before = tags@;
        let t = tags.pop().unwrap();
        proof {
            assert(before =~= tags@.push(t));
            assert(text::string_views(before) =~= text::string_views(tags@).push(t@));
            lemma_wrap_push(text::string_views(tags@), t@, cur@);
        }
        cur = Yaml::Tagged(t, Box::new(cur));
    }
    assert(text::string_views(tags@) =~= Seq::<Seq<char>>::empty());
    cur
}

/// The value under any tags, borrowed.
pub fn untag_ref(y: &Yaml) -> (res: &Yaml)
    ensures
        res@ == untag(y@),
    decreases y,
{
    match y {
        Yaml::Tagged(_, b) => untag_ref(b),
        _ => y,
    }
}

// ---------------------------------------------------------------------------
// Mappings
// ---------------------------------------------------------------------------

/// The key `name` as a YAML string.
pub open spec fn key(name: Seq<char>) -> YamlV {
    YamlV::Str(name)
}

/// Index of the first entry with key `k`.
pub open spec fn index_of(es: Seq<(YamlV, YamlV)>, k: YamlV) -> Option<int> {
    if exists|i: int| 0 <= i < es.len() && es[i].0 == k {
        Some(choose|i: int| 0 <= i < es.len() && es[i].0 == k && forall|j: int| 0 <= j < i ==> es[j].0 != k)
    } else {
        None
    }
}

/// The value of key `k`.
pub open spec fn get(es: Seq<(YamlV, YamlV)>, k: YamlV) -> Option<YamlV> {
    match index_of(es, k) {
        Some(i) => Some(es[i].1),
        None => None,
    }
}

/// `es` with key `k` set to `v`: replaced in place when present, appended otherwise.
pub open spec fn insert(es: Seq<(YamlV, YamlV)>, k: YamlV, v: YamlV) -> Seq<(YamlV, YamlV)> {
    match index_of(es, k) {
        Some(i) => es.update(i, (es[i].0, v)),
        None => es.push((k, v)),
    }
}

/// `es` without key `k`; the last entry takes the removed entry's place.
pub open spec fn remove(es: Seq<(YamlV, YamlV)>, k: YamlV) -> Seq<(YamlV, YamlV)> {
    match index_of(es, k) {
        Some(i) => es.update(i, es.last()).drop_last(),
        None => es,
    }
}

pub proof fn lemma_index_of(es: Seq<(YamlV, YamlV)>, k: YamlV, i: int)
    requires
        0 <= i < es.len(),
        es[i].0 == k,
        forall|j: int| 0 <= j < i ==> es[j].0 != k,
    ensures
        index_of(es, k) == Some(i),
{
    let c = choose|c: int| 0 <= c < es.len() && es[c].0 == k && forall|j: int| 0 <= j < c ==> es[j].0 != k;
    assert(c == i) by {
        if c < i {
        } else if c > i {
        }
    }
}

/// Position of the entry with key `name`.
pub fn find_key(es: &Vec<(Yaml, Yaml)>, name: &str) -> (res: Option<usize>)
    ensures
        match res {
            Some(i) => i < es@.len() && index_of(view_entries(es@), key(name@)) == Some(i as int),
            None => index_of(view_entries(es@), key(name@)) is None,
        },
{
    proof {
        lemma_view_entries(es@);
    }
    let target = String::from_str(name);
    let mut i: usize = 0;
    while i < es.len()
        invariant
            i <= es@.len(),
            target@ == name@,
            view_entries(es@).len() == es@.len(),
            forall|j: int| 0 <= j < es@.len() ==> #[trigger] view_entries(es@)[j] == (view_yaml(es@[j].0), view_yaml(es@[j].1)),
            forall|j: int| 0 <= j < i ==> view_entries(es@)[j].0 != key(name@),
        decreases es.len() - i,
    {
        let hit = match &es[i].0 {
            Yaml::Str(s) => *s == target,
            _ => false,
        };
        if hit {
            proof {
                lemma_index_of(view_entries(es@), key(name@), i as int);
            }
            return Some(i);
        }
        assert(view_entries(es@)[i as int].0 != key(name@));
        i = i + 1;
    }
    None
}

/// The value of key `name`, borrowed.
pub fn get_ref<'a>(es: &'a Vec<(Yaml, Yaml)>, name: &str) -> (res: Option<&'a Yaml>)
    ensures
        match res {
            Some(v) => get(view_entries(es@), key(name@)) == Some(v@),
            None => get(view_entries(es@), key(name@)) is None,
        },
{
    proof {
        lemma_view_entries(es@);
    }
    match find_key(es, name) {
        Some(i) => Some(&es[i].1),
        None => None,
    }
}

/// Sets key `name` to `value`.
pub fn insert_entry(es: &mut Vec<(Yaml, Yaml)>, name: &str, value: Yaml)
    ensures
        view_entries(final(es)@) == insert(view_entries(old(es)@), key(name@), value@),
{
    proof {
        lemma_view_entries(old(es)@);
    }
    let ghost before = es@;
    match find_key(es, name) {
        Some(i) => {
            let (k, _) = es.remove(i);
            let ghost kv = k@;
            es.insert(i, (k, value));
            proof {
                assert(es@ =~= before.update(i as int, (k, value)));
                lemma_view_entries(es@);
                assert(view_entries(es@) =~= view_entries(before).update(i as int, (view_entries(before)[i as int].0, value@)));
            }
        },
        None => {
            es.push((Yaml::Str(String::from_str(name)), value));
            proof {
                lemma_view_entries(es@);
                assert(view_entries(es@) =~= view_entries(before).push((key(name@), value@)));
            }
        },
    }
}

/// Removes key `name`, moving the last entry into its place.
pub fn remove_entry(es: &mut Vec<(Yaml, Yaml)>, name: &str)
    ensures
        view_entries(final(es)@) == remove(view_entries(old(es)@), key(name@)),
{
    proof {
        lemma_view_entries(old(es)@);
    }
    let ghost before = es@;
    match find_key(es, name) {
        Some(i) => {
            let _ = es.swap_remove(i);
            proof {
                lemma_view_entries(es@);
                assert(view_entries(es@) =~= view_entries(before).update(i as int, view_entries(before).last()).drop_last());
            }
        },
        None => {},
    }
}

/// The text of a value read as a string (through tags).
pub open spec fn as_str(v: YamlV) -> Option<Seq<char>> {
    match untag(v) {
        YamlV::Str(s) => Some(s),
        _ => None,
    }
}

/// A value read as a boolean (through tags).
pub open spec fn as_bool(v: YamlV) -> Option<bool> {
    match untag(v) {
        YamlV::Bool(b) => Some(b),
        _ => None,
    }
}

/// A value read as a mapping (through tags).
pub open spec fn as_mapping(v: YamlV) -> Option<Seq<(YamlV, YamlV)>> {
    match untag(v) {
        YamlV::Mapping(es) => Some(es),
        _ => None,
    }
}

/// A value read as a sequence (through tags).
pub open spec fn as_sequence(v: YamlV) -> Option<Seq<YamlV>> {
    match untag(v) {
        YamlV::Sequence(items) => Some(items),
        _ => None,
    }
}

/// The string field `name` of a mapping.
pub open spec fn str_field(es: Seq<(YamlV, YamlV)>, name: Seq<char>) -> Option<Seq<char>> {
    match get(es, key(name)) {
        Some(v) => as_str(v),
        None => None,
    }
}

/// The boolean field `name` of a mapping.
pub open spec fn bool_field(es: Seq<(YamlV, YamlV)>, name: Seq<char>) -> Option<bool> {
    match get(es, key(name)) {
        Some(v) => as_bool(v),
        None => None,
    }
}

/// A value read as a string.
pub fn str_of(y: &Yaml) -> (res: Option<&String>)
    ensures
        match res {
            Some(s) => as_str(y@) == Some(s@),
            None => as_str(y@) is None,
        },
{
    match untag_ref(y) {
        Yaml::Str(s) => Some(s),
        _ => None,
    }
}

/// A value read as a mapping.
pub fn mapping_of(y: &Yaml) -> (res: Option<&Vec<(Yaml, Yaml)>>)
    ensures
        match res {
            Some(es) => as_mapping(y@) == Some(view_entries(es@)),
            None => as_mapping(y@) is None,
        },
{
    match untag_ref(y) {
        Yaml::Mapping(es) => Some(es),
        _ => None,
    }
}

/// A value read as a sequence.
pub fn sequence_of(y: &Yaml) -> (res: Option<&Vec<Yaml>>)
    ensures
        match res {
            Some(items) => as_sequence(y@) == Some(view_items(items@)),
            None => as_sequence(y@) is None,
        },
{
    match untag_ref(y) {
        Yaml::Sequence(items) => Some(items),
        _ => None,
    }
}

/// The string field `name` of a mapping.
pub fn get_str<'a>(es: &'a Vec<(Yaml, Yaml)>, name: &str) -> (res: Option<&'a String>)
    ensures
        match res {
            Some(s) => str_field(view_entries(es@), name@) == Some(s@),
            None => str_field(view_entries(es@), name@) is None,
        },
{
    match get_ref(es, name) {
        Some(v) => str_of(v),
        None => None,
    }
}

/// The boolean field `name` of a mapping.
pub fn get_bool(es: &Vec<(Yaml, Yaml)>, name: &str) -> (res: Option<bool>)
    ensures
        res == bool_field(view_entries(es@), name@),
{
    match get_ref(es, name) {
        Some(v) => match untag_ref(v) {
            Yaml::Bool(b) => Some(*b),
            _ => None,
        },
        None => None,
    }
}

/// An empty mapping.
pub fn empty_mapping() -> (res: Yaml)
    ensures
        res@ == YamlV::Mapping(Seq::empty()),
{
    let es: Vec<(Yaml, Yaml)> = Vec::new();
    assert(view_entries(es@) =~= Seq::<(YamlV, YamlV)>::empty());
    Yaml::Mapping(es)
}

/// A string value.
pub fn string(s: &str) -> (res: Yaml)
    ensures
        res@ == YamlV::Str(s@),
{
    Yaml::Str(String::from_str(s))
}

pub proof fn lemma_index_of_none(es: Seq<(YamlV, YamlV)>, k: YamlV)
    ensures
        index_of(es, k) is None <==> forall|j: int| 0 <= j < es.len() ==> es[j].0 != k,
        index_of(es, k) matches Some(i) ==> 0 <= i < es.len() && es[i].0 == k && forall|j: int|
            0 <= j < i ==> es[j].0 != k,
{
    if exists|i: int| 0 <= i < es.len() && es[i].0 == k {
        let w = choose|i: int| 0 <= i < es.len() && es[i].0 == k;
        lemma_first_exists(es, k, w);
    }
}

proof fn lemma_first_exists(es: Seq<(YamlV, YamlV)>, k: YamlV, w: int)
    requires
        0 <= w < es.len(),
        es[w].0 == k,
    ensures
        exists|i: int| 0 <= i < es.len() && es[i].0 == k && forall|j: int| 0 <= j < i ==> es[j].0 != k,
    decreases w,
{
    if exists|j: int| 0 <= j < w && es[j].0 == k {
        let j = choose|j: int| 0 <= j < w && es[j].0 == k;
        lemma_first_exists(es, k, j);
    } else {
        assert(forall|j: int| 0 <= j < w ==> es[j].0 != k);
    }
}

/// After setting key `k`, reading it gives the new value.
pub proof fn lemma_get_insert(es: Seq<(YamlV, YamlV)>, k: YamlV, v: YamlV)
    ensures
        get(insert(es, k, v), k) == Some(v),
        index_of(insert(es, k, v), k) is Some,
{
    lemma_index_of_none(es, k);
    let es2 = insert(es, k, v);
    match index_of(es, k) {
        Some(i) => {
            assert(es2[i].0 == k);
            lemma_index_of(es2, k, i);
        },
        None => {
            lemma_index_of(es2, k, es.len() as int);
        },
    }
}


/// Takes out the value at `idx`, leaving `Null` in its place.
pub fn take_value(es: &mut Vec<(Yaml, Yaml)>, idx: usize) -> (res: Yaml)
    requires
        idx < old(es)@.len(),
    ensures
        res == old(es)@[idx as int].1,
        final(es)@ == old(es)@.update(idx as int, (old(es)@[idx as int].0, Yaml::Null)),
{
    let (k, v) = es.remove(idx);
    es.insert(idx, (k, Yaml::Null));
    assert(es@ =~= old(es)@.update(idx as int, (old(es)@[idx as int].0, Yaml::Null)));
    v
}

/// Puts `value` at `idx`, keeping the key.
pub fn put_value(es: &mut Vec<(Yaml, Yaml)>, idx: usize, value: Yaml)
    requires
        idx < old(es)@.len(),
    ensures
        final(es)@ == old(es)@.update(idx as int, (old(es)@[idx as int].0, value)),
{
    let (k, _) = es.remove(idx);
    es.insert(idx, (k, value));
    assert(es@ =~= old(es)@.update(idx as int, (old(es)@[idx as int].0, value)));
}

/// Replacing entry `i` changes exactly entry `i` of the view.
pub proof fn lemma_view_entries_update(es: Seq<(Yaml, Yaml)>, i: int, e: (Yaml, Yaml))
    requires
        0 <= i < es.len(),
    ensures
        view_entries(es.update(i, e)) == view_entries(es).update(i, (view_yaml(e.0), view_yaml(e.1))),
{
    lemma_view_entries(es);
    lemma_view_entries(es.update(i, e));
    assert(view_entries(es.update(i, e)) =~= view_entries(es).update(i, (view_yaml(e.0), view_yaml(e.1))));
}

pub proof fn lemma_view_items_update(items: Seq<Yaml>, i: int, y: Yaml)
    requires
        0 <= i < items.len(),
    ensures
        view_items(items.update(i, y)) == view_items(items).update(i, view_yaml(y)),
{
    lemma_view_items(items);
    lemma_view_items(items.update(i, y));
    assert(view_items(items.update(i, y)) =~= view_items(items).update(i, view_yaml(y)));
}

/// Takes out the item at `idx`, leaving `Null` in its place.
pub fn take_item(items: &mut Vec<Yaml>, idx: usize) -> (res: Yaml)
    requires
        idx < old(items)@.len(),
    ensures
        res == old(items)@[idx as int],
        final(items)@ == old(items)@.update(idx as int, Yaml::Null),
{
    let v = items.remove(idx);
    items.insert(idx, Yaml::Null);
    assert(items@ =~= old(items)@.update(idx as int, Yaml::Null));
    v
}

/// Puts `value` at `idx`.
pub fn put_item(items: &mut Vec<Yaml>, idx: usize, value: Yaml)
    requires
        idx < old(items)@.len(),
    ensures
        final(items)@ == old(items)@.update(idx as int, value),
{
    let _ = items.remove(idx);
    items.insert(idx, value);
    assert(items@ =~= old(items)@.update(idx as int, value));
}

/// Takes out the mapping at entry `idx` (under its tags).  When the value
/// there is not a mapping, nothing changes.
pub fn open_mapping_at(es: &mut Vec<(Yaml, Yaml)>, idx: usize) -> (res: Option<(Vec<String>, Vec<(Yaml, Yaml)>)>)
    requires
        idx < old(es)@.len(),
    ensures
        final(es)@.len() == old(es)@.len(),
        res matches Some(p) ==> as_mapping(view_entries(old(es)@)[idx as int].1) == Some(view_entries(p.1@)),
        res matches Some(p) ==> text::string_views(p.0@) == tags_of(view_entries(old(es)@)[idx as int].1),
        res is Some ==> view_entries(final(es)@) == view_entries(old(es)@).update(idx as int, (view_entries(old(es)@)[idx as int].0, YamlV::Null)),
        res is None ==> as_mapping(view_entries(old(es)@)[idx as int].1) is None,
        res is None ==> view_entries(final(es)@) == view_entries(old(es)@),
{
    proof {
        lemma_view_entries(old(es)@);
    }
    let ghost before = es@;
    let v = take_value(es, idx);
    let ghost v_view = v@;
    let (tags, core) = split_tags(v);
    match core {
        Yaml::Mapping(inner) => {
            proof {
                lemma_view_entries_update(before, idx as int, (before[idx as int].0, Yaml::Null));
                assert(view_entries(before)[idx as int].1 == v_view);
                assert(untag(v_view) == YamlV::Mapping(view_entries(inner@)));
                assert(as_mapping(view_entries(before)[idx as int].1) == Some(view_entries(inner@)));
                assert(text::string_views(tags@) == tags_of(view_entries(before)[idx as int].1));
                assert(es@ == before.update(idx as int, (before[idx as int].0, Yaml::Null)));
                assert(view_entries(es@) == view_entries(before).update(idx as int, (view_entries(before)[idx as int].0, YamlV::Null)));
            }
            Some((tags, inner))
        },
        other => {
            let restored = wrap_tags(tags, other);
            proof {
                lemma_untag_retag(v_view);
            }
            put_value(es, idx, restored);
            proof {
                lemma_view_entries_update(before, idx as int, (before[idx as int].0, restored));
                assert(restored@ == v_view);
                assert(es@ =~= before.update(idx as int, (before[idx as int].0, restored)));
                assert(view_entries(before)[idx as int] == (view_yaml(before[idx as int].0), v_view));
                assert(view_entries(es@) =~= view_entries(before));
            }
            None
        },
    }
}

/// Puts the mapping `inner`, under `tags`, at entry `idx`.
pub fn close_mapping_at(es: &mut Vec<(Yaml, Yaml)>, idx: usize, tags: Vec<String>, inner: Vec<(Yaml, Yaml)>)
    requires
        idx < old(es)@.len(),
    ensures
        view_entries(final(es)@) == view_entries(old(es)@).update(
            idx as int,
            (view_entries(old(es)@)[idx as int].0, wrap(text::string_views(tags@), YamlV::Mapping(view_entries(inner@)))),
        ),
{
    proof {
        lemma_view_entries(old(es)@);
    }
    let ghost before = es@;
    let v = wrap_tags(tags, Yaml::Mapping(inner));
    put_value(es, idx, v);
    proof {
        lemma_view_entries_update(before, idx as int, (before[idx as int].0, v));
    }
}

/// Removing a key after setting it is removing it.
pub proof fn lemma_remove_after_insert(es: Seq<(YamlV, YamlV)>, k: YamlV, v: YamlV)
    requires
        index_of(es, k) is Some,
    ensures
        remove(insert(es, k, v), k) == remove(es, k),
{
    lemma_index_of_none(es, k);
    let i = index_of(es, k)->0;
    let es2 = insert(es, k, v);
    assert(es2[i].0 == k);
    lemma_index_of(es2, k, i);
    assert(remove(es2, k) =~= remove(es, k));
}



/// No key occurs twice among the entries, as in any parsed mapping.
pub open spec fn unique_keys(es: Seq<(YamlV, YamlV)>) -> bool {
    forall|i: int, j: int| 0 <= i < j < es.len() ==> es[i].0 != es[j].0
}

/// Wrapping a value that is not tagged and then looking through the tags
/// gives the value back.
pub proof fn lemma_untag_wrap(tags: Seq<Seq<char>>, core: YamlV)
    requires
        core !is Tagged,
    ensures
        untag(wrap(tags, core)) == core,
    decreases tags.len(),
{
    if tags.len() > 0 {
        lemma_untag_wrap(tags.drop_first(), core);
    }
}

/// A value retagged around a mapping reads as that mapping.
pub proof fn lemma_as_mapping_retag(v: YamlV, m: Seq<(YamlV, YamlV)>)
    ensures
        as_mapping(retag(v, YamlV::Mapping(m))) == Some(m),
{
    lemma_untag_wrap(tags_of(v), YamlV::Mapping(m));
}

/// A value retagged around a sequence reads as that sequence.
pub proof fn lemma_as_sequence_retag(v: YamlV, items: Seq<YamlV>)
    ensures
        as_sequence(retag(v, YamlV::Sequence(items))) == Some(items),
{
    lemma_untag_wrap(tags_of(v), YamlV::Sequence(items));
}

/// Setting one key leaves the value of every other key as it was.
pub proof fn lemma_get_insert_other(es: Seq<(YamlV, YamlV)>, k: YamlV, v: YamlV, other: YamlV)
    requires
        other != k,
    ensures
        get(insert(es, k, v), other) == get(es, other),
{
    lemma_index_of_none(es, k);
    lemma_index_of_none(es, other);
    let es2 = insert(es, k, v);
    lemma_index_of_none(es2, other);
    assert(forall|j: int| 0 <= j < es.len() ==> #[trigger] es2[j].0 == es[j].0);
    match index_of(es, other) {
        Some(i) => {
            lemma_index_of(es2, other, i);
        },
        None => {
            if index_of(es2, other) is Some {
                let j = index_of(es2, other)->0;
                assert(j < es.len() || es2[j].0 == k);
            }
        },
    }
}

/// Once a key is removed from entries with unique keys, it is gone.
pub proof fn lemma_get_remove(es: Seq<(YamlV, YamlV)>, k: YamlV)
    requires
        unique_keys(es),
    ensures
        get(remove(es, k), k) is None,
{
    lemma_index_of_none(es, k);
    let r = remove(es, k);
    match index_of(es, k) {
        Some(i) => {
            assert forall|j: int| 0 <= j < r.len() implies r[j].0 != k by {
                if j == i {
                    assert(r[j] == es[es.len() - 1]);
                    assert(es[i].0 == k);
                } else {
                    assert(r[j] == es[j]);
                    if j < i {
                    } else {
                    }
                }
            }
            lemma_index_of_none(r, k);
        },
        None => {},
    }
}
/// Removing one key of a mapping whose keys are distinct leaves the value
/// of every other key as it was.
pub proof fn lemma_get_remove_other(es: Seq<(YamlV, YamlV)>, k: YamlV, other: YamlV)
    requires
        unique_keys(es),
        other != k,
    ensures
        get(remove(es, k), other) == get(es, other),
{
    lemma_index_of_none(es, k);
    lemma_index_of_none(es, other);
    let r = remove(es, k);
    lemma_index_of_none(r, other);
    match index_of(es, k) {
        None => {},
        Some(i) => {
            let n = es.len() - 1;
            assert(forall|j: int| 0 <= j < r.len() ==> #[trigger] r[j] == (if j == i { es[n] } else { es[j] }));
            match index_of(es, other) {
                Some(m) => {
                    let p = if m == n { i } else { m };
                    assert(r[p] == es[m]);
                    assert forall|j: int| 0 <= j < p implies r[j].0 != other by {
                        if j == i {
                            assert(es[n].0 != es[m].0);
                        } else {
                            assert(r[j] == es[j]);
                            if m == n {
                                assert(es[j].0 != es[m].0);
                            }
                        }
                    }
                    lemma_index_of(r, other, p);
                },
                None => {
                    assert forall|j: int| 0 <= j < r.len() implies r[j].0 != other by {
                        if j == i {
                            assert(r[j] == es[n]);
                        } else {
                            assert(r[j] == es[j]);
                        }
                    }
                },
            }
        },
    }
}
} // verus!
