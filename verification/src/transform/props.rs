//! The properties of an element's props object, and merging the ones that share a name.
use vstd::prelude::*;

use crate::text::str_eq;
use crate::transform::resolutions::{is_on, spec_is_on};
use crate::transform::utils::take_reversed;

verus! {

/// The key of a property: a static name, or a computed key given by its expression.
pub enum PropKey {
    Static(String),
    Dynamic(String),
}

/// The value of a property: an array of values, or an expression given by its text.
pub enum PropValue {
    Array(Vec<PropValue>),
    Expr(String),
}

pub struct Property {
    pub key: PropKey,
    pub value: PropValue,
}

pub open spec fn static_name(k: PropKey) -> Option<Seq<char>> {
    match k {
        PropKey::Static(name) => Some(name@),
        PropKey::Dynamic(_) => None,
    }
}

/// Properties whose duplicates are merged into an array: `style`, `class` and event handlers.
pub open spec fn mergeable(name: Seq<char>) -> bool {
    name == "style"@ || name == "class"@ || spec_is_on(name)
}

/// The index of the first key that is the static name `name`.
pub open spec fn find_static(keys: Seq<PropKey>, name: Seq<char>) -> Option<int>
    decreases keys.len(),
{
    if keys.len() == 0 {
        None
    } else {
        match find_static(keys.drop_last(), name) {
            Some(i) => Some(i),
            None => if static_name(keys.last()) == Some(name) {
                Some(keys.len() - 1)
            } else {
                None
            },
        }
    }
}

/// A property after merging: its key, its first value, and the values merged into it.
pub struct MergedProperty {
    pub key: PropKey,
    pub first: PropValue,
    pub merged: Seq<PropValue>,
}

pub open spec fn merged_keys(entries: Seq<MergedProperty>) -> Seq<PropKey> {
    entries.map_values(|e: MergedProperty| e.key)
}

/// One property more: a static name seen before is merged into the first property
/// of that name when it is `style`, `class` or an event handler, and dropped
/// otherwise; any other property is added.
pub open spec fn dedupe_step(entries: Seq<MergedProperty>, p: Property) -> Seq<MergedProperty> {
    let fresh = MergedProperty { key: p.key, first: p.value, merged: Seq::empty() };
    match static_name(p.key) {
        Some(name) => match find_static(merged_keys(entries), name) {
            Some(i) => if mergeable(name) {
                entries.update(i, MergedProperty { merged: entries[i].merged.push(p.value), ..entries[i] })
            } else {
                entries
            },
            None => entries.push(fresh),
        },
        None => entries.push(fresh),
    }
}

pub open spec fn dedupe_entries(props: Seq<Property>) -> Seq<MergedProperty>
    decreases props.len(),
{
    if props.len() == 0 {
        Seq::empty()
    } else {
        dedupe_step(dedupe_entries(props.drop_last()), props.last())
    }
}

/// The values that an array value starts with when more are merged into it.
pub open spec fn array_items(v: PropValue) -> Seq<PropValue> {
    match v {
        PropValue::Array(items) => items@,
        PropValue::Expr(_) => seq![v],
    }
}

/// The property is what the entry stands for: its first value when nothing was
/// merged, else an array of the first value's items followed by the merged values.
pub open spec fn is_merged_property(p: Property, e: MergedProperty) -> bool {
    &&& p.key == e.key
    &&& if e.merged.len() == 0 {
        p.value == e.first
    } else {
        p.value matches PropValue::Array(items) && items@ == array_items(e.first) + e.merged
    }
}

pub open spec fn stands_for(props: Seq<Property>, entries: Seq<MergedProperty>) -> bool {
    &&& props.len() == entries.len()
    &&& forall|j: int| 0 <= j < props.len() ==> #[trigger] is_merged_property(props[j], entries[j])
}

pub open spec fn prop_keys(props: Seq<Property>) -> Seq<PropKey> {
    props.map_values(|p: Property| p.key)
}

fn find_static_exec(props: &Vec<Property>, name: &str) -> (r: Option<usize>)
    ensures
        match r {
            Some(i) => i < props.len() && find_static(prop_keys(props@), name@) == Some(i as int),
            None => find_static(prop_keys(props@), name@) is None,
        },
{
    let mut i: usize = 0;
    while i < props.len()
        invariant
            i <= props.len(),
            find_static(prop_keys(props@.take(i as int)), name@) is None,
        decreases props.len() - i,
    {
        proof {
            assert(prop_keys(props@.take(i + 1)).drop_last() =~= prop_keys(props@.take(i as int)));
        }
        let found = match &props[i].key {
            PropKey::Static(n) => str_eq(n.as_str(), name),
            PropKey::Dynamic(_) => false,
        };
        if found {
            proof {
                lemma_find_static_prefix(prop_keys(props@), i as int + 1, name@);
                assert(prop_keys(props@).take(i + 1) =~= prop_keys(props@.take(i + 1)));
            }
            return Some(i);
        }
        i = i + 1;
    }
    assert(props@.take(props.len() as int) =~= props@);
    None
}

/// The first match among the first `k` keys is the first match of all.
proof fn lemma_find_static_prefix(keys: Seq<PropKey>, k: int, name: Seq<char>)
    requires
        0 <= k <= keys.len(),
        find_static(keys.take(k), name) is Some,
    ensures
        find_static(keys, name) == find_static(keys.take(k), name),
    decreases keys.len() - k,
{
    if k < keys.len() {
        assert(keys.take(k + 1).drop_last() =~= keys.take(k));
        lemma_find_static_prefix(keys, k + 1, name);
    } else {
        assert(keys.take(k) =~= keys);
    }
}

/// Turns the value of `existing` into an array (unless it is one) and appends the value of `incoming`.
fn merge_as_array(existing: &mut Property, incoming: Property)
    ensures
        final(existing).key == old(existing).key,
        final(existing).value matches PropValue::Array(items) && items@ == array_items(old(existing).value).push(
            incoming.value,
        ),
{
    let mut value = PropValue::Array(Vec::new());
    std::mem::swap(&mut value, &mut existing.value);
    match value {
        PropValue::Array(mut items) => {
            items.push(incoming.value);
            existing.value = PropValue::Array(items);
        },
        other => {
            let ghost o = other;
            let items = vec![other, incoming.value];
            assert(items@ =~= seq![o].push(incoming.value));
            existing.value = PropValue::Array(items);
        },
    }
}

/// Dedupe props in an object literal.
/// Literal duplicated attributes would have been warned during the parse phase,
/// however, it's possible to encounter duplicated `onXXX` handlers with different
/// modifiers. We also need to merge static and dynamic class / style attributes.
/// - onXXX handlers / style / class: merge into array
pub fn dedupe_properties(properties: Vec<Property>) -> (r: Vec<Property>)
    ensures
        stands_for(r@, dedupe_entries(properties@)),
{
    let ghost orig = properties@;
    let n = properties.len();
    let mut properties = properties;
    let mut pending = take_reversed(&mut properties);
    let mut deduped: Vec<Property> = Vec::new();
    assert(orig.take(0) =~= Seq::<Property>::empty());
    while pending.len() > 0
        invariant
            pending.len() <= n,
            n == orig.len(),
            forall|j: int| 0 <= j < pending.len() ==> #[trigger] pending@[j] == orig[n - 1 - j],
            stands_for(deduped@, dedupe_entries(orig.take(n - pending.len()))),
        decreases pending.len(),
    {
        let ghost k = n - pending.len();
        let prop = match pending.pop() {
            Some(p) => p,
            None => vstd::pervasive::unreached(),
        };
        let ghost entries = dedupe_entries(orig.take(k));
        proof {
            let t = orig.take(k + 1);
            assert(t.drop_last() =~= orig.take(k));
            assert(t.last() == prop);
            assert(prop_keys(deduped@) =~= merged_keys(entries)) by {
                assert forall|j: int| 0 <= j < deduped@.len() implies prop_keys(deduped@)[j] == merged_keys(entries)[j] by {
                    assert(is_merged_property(deduped@[j], entries[j]));
                }
            }
        }
        let ghost before = deduped@;
        let existing = match &prop.key {
            PropKey::Static(name) => match find_static_exec(&deduped, name.as_str()) {
                Some(i) => Some((i, str_eq(name.as_str(), "style") || str_eq(name.as_str(), "class") || is_on(name.as_str()))),
                None => None,
            },
            PropKey::Dynamic(_) => None,
        };
        proof {
            reveal_strlit("style");
            reveal_strlit("class");
        }
        match existing {
            Some((i, merge)) => {
                if merge {
                    let mut target = deduped.remove(i);
                    let ghost e = entries[i as int];
                    assert(is_merged_property(target, e));
                    merge_as_array(&mut target, prop);
                    deduped.insert(i, target);
                    proof {
                        let after = dedupe_entries(orig.take(k + 1));
                        assert(after == entries.update(i as int, MergedProperty { merged: e.merged.push(orig[k].value), ..e }));
                        assert forall|j: int| 0 <= j < deduped@.len() implies #[trigger] is_merged_property(deduped@[j], after[j]) by {
                            if j == i as int {
                                assert(array_items(e.first) + e.merged.push(orig[k].value) =~= (array_items(e.first) + e.merged).push(orig[k].value));
                            } else {
                                assert(deduped@[j] == before[j]);
                            }
                        }
                    }
                }
            },
            None => {
                deduped.push(prop);
                proof {
                    let after = dedupe_entries(orig.take(k + 1));
                    assert forall|j: int| 0 <= j < deduped@.len() implies #[trigger] is_merged_property(deduped@[j], after[j]) by {
                        if j < before.len() {
                            assert(deduped@[j] == before[j]);
                        }
                    }
                }
            },
        }
    }
    assert(orig.take(n as int) =~= orig);
    deduped
}

spec fn static_names_unique(entries: Seq<MergedProperty>) -> bool {
    forall|i: int, j: int|
        0 <= i < j < entries.len() && static_name(entries[i].key) is Some ==> static_name(#[trigger] entries[i].key)
            != static_name(#[trigger] entries[j].key)
}

/// No two merged properties share a static name.
proof fn lemma_dedupe_static_names_unique(props: Seq<Property>)
    ensures
        static_names_unique(dedupe_entries(props)),
    decreases props.len(),
{
    if props.len() > 0 {
        let init = props.drop_last();
        let p = props.last();
        lemma_dedupe_static_names_unique(init);
        let entries = dedupe_entries(init);
        let after = dedupe_entries(props);
        let fresh = MergedProperty { key: p.key, first: p.value, merged: Seq::empty() };
        match static_name(p.key) {
            Some(name) => match find_static(merged_keys(entries), name) {
                Some(i) => {
                    lemma_find_static_bound(merged_keys(entries), name);
                    assert(after.len() == entries.len());
                    assert forall|x: int| 0 <= x < after.len() implies #[trigger] after[x].key == entries[x].key by {}
                    assert forall|x: int, y: int|
                        0 <= x < y < after.len() && static_name(after[x].key) is Some implies static_name(#[trigger] after[x].key)
                            != static_name(#[trigger] after[y].key) by {
                        assert(after[x].key == entries[x].key);
                        assert(after[y].key == entries[y].key);
                    }
                },
                None => {
                    lemma_find_static_none(merged_keys(entries), name);
                    assert(after == entries.push(fresh));
                    assert forall|x: int, y: int|
                        0 <= x < y < after.len() && static_name(after[x].key) is Some implies static_name(#[trigger] after[x].key)
                            != static_name(#[trigger] after[y].key) by {
                        if y == entries.len() {
                            assert(merged_keys(entries)[x] == entries[x].key);
                        }
                    }
                },
            },
            None => {
                assert(after == entries.push(fresh));
            },
        }
    }
}

/// No two of the deduped properties share a static name.
pub proof fn lemma_deduped_properties_unique(props: Seq<Property>, deduped: Seq<Property>)
    requires
        stands_for(deduped, dedupe_entries(props)),
    ensures
        forall|i: int, j: int|
            0 <= i < j < deduped.len() && static_name(deduped[i].key) is Some ==> static_name(#[trigger] deduped[i].key)
                != static_name(#[trigger] deduped[j].key),
{
    let entries = dedupe_entries(props);
    lemma_dedupe_static_names_unique(props);
    assert forall|i: int, j: int|
        0 <= i < j < deduped.len() && static_name(deduped[i].key) is Some implies static_name(#[trigger] deduped[i].key)
            != static_name(#[trigger] deduped[j].key) by {
        assert(is_merged_property(deduped[i], entries[i]));
        assert(is_merged_property(deduped[j], entries[j]));
    }
}

/// A match is an index of the keys.
proof fn lemma_find_static_bound(keys: Seq<PropKey>, name: Seq<char>)
    ensures
        find_static(keys, name) matches Some(i) ==> 0 <= i < keys.len(),
    decreases keys.len(),
{
    if keys.len() > 0 {
        lemma_find_static_bound(keys.drop_last(), name);
    }
}

/// Without a first match, no key is the static name.
proof fn lemma_find_static_none(keys: Seq<PropKey>, name: Seq<char>)
    requires
        find_static(keys, name) is None,
    ensures
        forall|i: int| 0 <= i < keys.len() ==> static_name(#[trigger] keys[i]) != Some(name),
    decreases keys.len(),
{
    if keys.len() > 0 {
        lemma_find_static_none(keys.drop_last(), name);
        assert forall|i: int| 0 <= i < keys.len() implies static_name(#[trigger] keys[i]) != Some(name) by {
            if i < keys.len() - 1 {
                assert(keys.drop_last()[i] == keys[i]);
            }
        }
    }
}

} // verus!
