use vstd::prelude::*;

use crate::json::{json_equal, JsonModel, JsonValue};
use crate::text::{contains, contains_spec, first_index_of, lemma_first_index_of, str_equal};
use vstd::string::StringExecFns;

verus! {

/// A slot of a recognised intent: its name, the text the user said for it,
/// and the value it was resolved to.
#[derive(Debug)]
pub struct Slot {
    pub slot_name: String,
    pub raw_value: String,
    pub value: JsonValue,
}

/// The names of the slots, in order.
pub open spec fn slot_names(slots: Seq<Slot>) -> Seq<Seq<char>> {
    slots.map_values(|s: Slot| s.slot_name@)
}

/// The position of the first slot named `name`, if any.
pub open spec fn first_slot(slots: Seq<Slot>, name: Seq<char>) -> Option<int> {
    first_index_of(slot_names(slots), name)
}

/// Whether a slot named `name` is present.
pub open spec fn has_slot_spec(slots: Seq<Slot>, name: Seq<char>) -> bool {
    first_slot(slots, name) is Some
}

/// The value of the first slot named `name`, if any.
pub open spec fn slot_value(slots: Seq<Slot>, name: Seq<char>) -> Option<JsonModel> {
    match first_slot(slots, name) {
        Some(i) => Some(slots[i].value.model()),
        None => None,
    }
}

/// The position of the first slot named `name`, if any.
pub fn find_slot(slots: &Vec<Slot>, name: &str) -> (r: Option<usize>)
    ensures
        match r {
            Some(i) => i < slots.len() && first_slot(slots@, name@) == Some(i as int),
            None => first_slot(slots@, name@) is None,
        },
{
    let ghost names = slot_names(slots@);
    let mut i: usize = 0;
    while i < slots.len()
        invariant
            names == slot_names(slots@),
            i <= slots.len(),
            forall|j: int| 0 <= j < i ==> names[j] != name@,
        decreases slots.len() - i,
    {
        if str_equal(slots[i].slot_name.as_str(), name) {
            proof {
                lemma_first_index_of(names, name@, i as int);
            }
            return Some(i);
        }
        i += 1;
    }
    None
}

/// Whether a slot named `name` is present.
pub fn has_slot(slots: &Vec<Slot>, name: &str) -> (r: bool)
    ensures
        r == has_slot_spec(slots@, name@),
{
    find_slot(slots, name).is_some()
}

/// Fails unless a slot named `name` is present.
pub fn require(slots: &Vec<Slot>, name: &str) -> (r: Result<(), String>)
    ensures
        has_slot_spec(slots@, name@) ==> r is Ok,
        !has_slot_spec(slots@, name@) ==> (r matches Err(e) && e@ == "Slot '"@ + name@
            + "' is required"@),
{
    if has_slot(slots, name) {
        Ok(())
    } else {
        let mut e = String::from_str("Slot '");
        e.append(name);
        e.append("' is required");
        Err(e)
    }
}

/// The value of the first slot named `name`, copied.
pub fn get(slots: &Vec<Slot>, name: &str) -> (r: Option<JsonValue>)
    ensures
        match r {
            Some(v) => slot_value(slots@, name@) == Some(v.model()),
            None => slot_value(slots@, name@) is None,
        },
{
    match find_slot(slots, name) {
        Some(i) => Some(slots[i].value.deep_copy()),
        None => None,
    }
}

/// What the user said for the first slot named `name`.
pub fn get_raw(slots: &Vec<Slot>, name: &str) -> (r: Option<String>)
    ensures
        match first_slot(slots@, name@) {
            Some(i) => r matches Some(x) && x@ == slots@[i].raw_value@,
            None => r is None,
        },
{
    match find_slot(slots, name) {
        Some(i) => Some(slots[i].raw_value.clone()),
        None => None,
    }
}

/// Whether the first slot named `name` holds the value `val`.
pub fn assert_equal(slots: &Vec<Slot>, name: &str, val: &JsonValue) -> (r: bool)
    ensures
        r == (slot_value(slots@, name@) == Some(val.model())),
{
    match find_slot(slots, name) {
        Some(i) => json_equal(&slots[i].value, val),
        None => false,
    }
}

/// Whether `v` is one of the items.
pub open spec fn has_item(items: Seq<JsonModel>, v: JsonModel) -> bool {
    exists|k: int| 0 <= k < items.len() && #[trigger] items[k] == v
}

/// Whether `v` is among the allowed values: an item of `allowed` when it is
/// an array, or `allowed` itself otherwise.
pub open spec fn allowed_value(v: JsonModel, allowed: JsonModel) -> bool {
    match allowed {
        JsonModel::Array(items) => has_item(items, v),
        _ => v == allowed,
    }
}

/// Whether the value of the first slot named `name` is in `list` (an item
/// of it when it is an array, or equal to it otherwise).
pub fn assert_in(slots: &Vec<Slot>, name: &str, list: &JsonValue) -> (r: bool)
    ensures
        r == match slot_value(slots@, name@) {
            Some(v) => allowed_value(v, list.model()),
            None => false,
        },
{
    let i = match find_slot(slots, name) {
        Some(i) => i,
        None => return false,
    };
    let v = &slots[i].value;
    match list {
        JsonValue::Array(items) => {
            let ghost ms = match list.model() {
                JsonModel::Array(m) => m,
                _ => Seq::empty(),
            };
            let mut k: usize = 0;
            while k < items.len()
                invariant
                    slot_value(slots@, name@) == Some(v.model()),
                    list.model() == JsonModel::Array(ms),
                    ms.len() == items.len(),
                    forall|j: int| 0 <= j < ms.len() ==> ms[j] == items@[j].model(),
                    k <= items.len(),
                    forall|j: int| 0 <= j < k ==> ms[j] != v.model(),
                decreases items.len() - k,
            {
                if json_equal(&items[k], v) {
                    assert(ms[k as int] == v.model());
                    assert(has_item(ms, v.model()));
                    return true;
                }
                k += 1;
            }
            false
        },
        _ => json_equal(v, list),
    }
}

/// Whether some member is named `key`.
pub open spec fn has_key(entries: Seq<(Seq<char>, JsonModel)>, key: Seq<char>) -> bool {
    exists|k: int| 0 <= k < entries.len() && #[trigger] entries[k].0 == key
}

/// Whether the name of some member contains `text`.
pub open spec fn has_key_with(entries: Seq<(Seq<char>, JsonModel)>, text: Seq<char>) -> bool {
    exists|k: int| 0 <= k < entries.len() && contains_spec(#[trigger] entries[k].0, text)
}

/// Whether `key` names a member of `dict`, an object.
pub open spec fn has_member_key(dict: JsonModel, key: Seq<char>) -> bool {
    match dict {
        JsonModel::Object(entries) => has_key(entries, key),
        _ => false,
    }
}

/// Whether some member name of `dict`, an object, contains `text`.
pub open spec fn has_key_containing(dict: JsonModel, text: Seq<char>) -> bool {
    match dict {
        JsonModel::Object(entries) => has_key_with(entries, text),
        _ => false,
    }
}

/// The text of the first slot named `name`, when its value is a string.
pub open spec fn slot_text(slots: Seq<Slot>, name: Seq<char>) -> Option<Seq<char>> {
    match slot_value(slots, name) {
        Some(JsonModel::Str(s)) => Some(s),
        _ => None,
    }
}

/// Whether the first slot named `name` holds a string that is the name of
/// a member of `dict`.
pub fn assert_in_dict(slots: &Vec<Slot>, name: &str, dict: &JsonValue) -> (r: bool)
    ensures
        r == match slot_text(slots@, name@) {
            Some(s) => has_member_key(dict.model(), s),
            None => false,
        },
{
    let i = match find_slot(slots, name) {
        Some(i) => i,
        None => return false,
    };
    let s = match &slots[i].value {
        JsonValue::Str(s) => s,
        _ => return false,
    };
    match dict {
        JsonValue::Object(entries) => {
            let ghost ms = match dict.model() {
                JsonModel::Object(m) => m,
                _ => Seq::empty(),
            };
            let mut k: usize = 0;
            while k < entries.len()
                invariant
                    slot_text(slots@, name@) == Some(s@),
                    dict.model() == JsonModel::Object(ms),
                    ms.len() == entries.len(),
                    forall|j: int| 0 <= j < ms.len() ==> ms[j].0 == entries@[j].0@,
                    k <= entries.len(),
                    forall|j: int| 0 <= j < k ==> ms[j].0 != s@,
                decreases entries.len() - k,
            {
                if str_equal(entries[k].0.as_str(), s.as_str()) {
                    assert(ms[k as int].0 == s@);
                    assert(has_key(ms, s@));
                    return true;
                }
                k += 1;
            }
            false
        },
        _ => false,
    }
}

/// Whether the first slot named `name` holds a string that occurs in the
/// name of some member of `dict`.
pub fn assert_in_dict_keys(slots: &Vec<Slot>, name: &str, dict: &JsonValue) -> (r: bool)
    ensures
        r == match slot_text(slots@, name@) {
            Some(s) => has_key_containing(dict.model(), s),
            None => false,
        },
{
    let i = match find_slot(slots, name) {
        Some(i) => i,
        None => return false,
    };
    let s = match &slots[i].value {
        JsonValue::Str(s) => s,
        _ => return false,
    };
    match dict {
        JsonValue::Object(entries) => {
            let ghost ms = match dict.model() {
                JsonModel::Object(m) => m,
                _ => Seq::empty(),
            };
            let mut k: usize = 0;
            while k < entries.len()
                invariant
                    slot_text(slots@, name@) == Some(s@),
                    dict.model() == JsonModel::Object(ms),
                    ms.len() == entries.len(),
                    forall|j: int| 0 <= j < ms.len() ==> ms[j].0 == entries@[j].0@,
                    k <= entries.len(),
                    forall|j: int| 0 <= j < k ==> !contains_spec(ms[j].0, s@),
                decreases entries.len() - k,
            {
                if contains(entries[k].0.as_str(), s.as_str()) {
                    assert(contains_spec(ms[k as int].0, s@));
                    assert(has_key_with(ms, s@));
                    return true;
                }
                k += 1;
            }
            false
        },
        _ => false,
    }
}


/// A key contains a text exactly when the text occurs in it at some
/// position: the dictionary is an object, and some member name holds the
/// text's characters one after the other from some position on.
pub proof fn law_key_containing(dict: JsonModel, t: Seq<char>)
    ensures
        has_key_containing(dict, t) <==> match dict {
            JsonModel::Object(es) => exists|m: int, p: int|
                0 <= m < es.len() && 0 <= p && p + t.len() <= es[m].0.len() && #[trigger] es[m].0.subrange(
                    p,
                    p + t.len(),
                ) == t,
            _ => false,
        },
{
    if let JsonModel::Object(es) = dict {
        if has_key_with(es, t) {
            let m = choose|m: int| 0 <= m < es.len() && contains_spec(#[trigger] es[m].0, t);
            let p = choose|p: int| crate::text::matches_at(es[m].0, t, p);
            assert(es[m].0.subrange(p, p + t.len()) == t);
        }
        if exists|m: int, p: int|
            0 <= m < es.len() && 0 <= p && p + t.len() <= es[m].0.len() && #[trigger] es[m].0.subrange(
                p,
                p + t.len(),
            ) == t {
            let (m, p) = choose|m: int, p: int|
                0 <= m < es.len() && 0 <= p && p + t.len() <= es[m].0.len() && #[trigger] es[m].0.subrange(
                    p,
                    p + t.len(),
                ) == t;
            assert(crate::text::matches_at(es[m].0, t, p));
            assert(contains_spec(es[m].0, t));
        }
    }
}

} // verus!
