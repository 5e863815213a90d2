use vstd::prelude::*;

use crate::text::{join, join_spec, split, split_spec, str_equal, views};
use vstd::string::StringExecFns;

verus! {

/// A JSON document, as the skill runtime stores user data and script values.
///
/// Numbers are kept as their decimal text, exactly as a JSON writer prints
/// them; objects keep their members in order.
#[derive(Debug)]
pub enum JsonValue {
    Null,
    Bool(bool),
    Number(String),
    Str(String),
    Array(Vec<JsonValue>),
    Object(Vec<(String, JsonValue)>),
}

/// The mathematical value of a JSON document.
pub enum JsonModel {
    Null,
    Bool(bool),
    Number(Seq<char>),
    Str(Seq<char>),
    Array(Seq<JsonModel>),
    Object(Seq<(Seq<char>, JsonModel)>),
}

impl JsonValue {
    /// The value this document denotes.
    pub open spec fn model(self) -> JsonModel
        decreases self,
    {
        match self {
            JsonValue::Null => JsonModel::Null,
            JsonValue::Bool(b) => JsonModel::Bool(b),
            JsonValue::Number(n) => JsonModel::Number(n@),
            JsonValue::Str(s) => JsonModel::Str(s@),
            JsonValue::Array(items) => JsonModel::Array(
                Seq::new(
                    items.len() as nat,
                    |i: int|
                        if 0 <= i < items.len() {
                            items[i].model()
                        } else {
                            JsonModel::Null
                        },
                ),
            ),
            JsonValue::Object(entries) => JsonModel::Object(
                Seq::new(
                    entries.len() as nat,
                    |i: int|
                        if 0 <= i < entries.len() {
                            (entries[i].0@, entries[i].1.model())
                        } else {
                            (Seq::empty(), JsonModel::Null)
                        },
                ),
            ),
        }
    }
}

/// The members of an object, as key and value.
pub open spec fn entries_model(entries: Seq<(String, JsonValue)>) -> Seq<(Seq<char>, JsonModel)> {
    entries.map_values(|e: (String, JsonValue)| (e.0@, e.1.model()))
}

/// The value of the first member named `key`, if any.
pub open spec fn entries_lookup(entries: Seq<(Seq<char>, JsonModel)>, key: Seq<char>) -> Option<
    JsonModel,
>
    decreases entries.len(),
{
    if entries.len() == 0 {
        None
    } else if entries[0].0 == key {
        Some(entries[0].1)
    } else {
        entries_lookup(entries.skip(1), key)
    }
}

/// The members with the first member named `key` given the value `v`, or
/// with a member `key: v` added at the end when there is none.
pub open spec fn entries_insert(
    entries: Seq<(Seq<char>, JsonModel)>,
    key: Seq<char>,
    v: JsonModel,
) -> Seq<(Seq<char>, JsonModel)>
    decreases entries.len(),
{
    if entries.len() == 0 {
        seq![(key, v)]
    } else if entries[0].0 == key {
        seq![(key, v)] + entries.skip(1)
    } else {
        seq![entries[0]] + entries_insert(entries.skip(1), key, v)
    }
}

/// The member `key` of an object; nothing for any other kind of value.
pub open spec fn member(m: JsonModel, key: Seq<char>) -> Option<JsonModel> {
    match m {
        JsonModel::Object(entries) => entries_lookup(entries, key),
        _ => None,
    }
}

/// The value reached from `m` by following the member names `parts` in turn.
pub open spec fn get_path(m: JsonModel, parts: Seq<Seq<char>>) -> Option<JsonModel>
    decreases parts.len(),
{
    if parts.len() == 0 {
        Some(m)
    } else {
        match member(m, parts[0]) {
            None => None,
            Some(child) => get_path(child, parts.skip(1)),
        }
    }
}

/// `m` with the value at the member path `parts` set to `v`: every member
/// but the last must exist, and the last is set on an object.
pub open spec fn set_path(m: JsonModel, parts: Seq<Seq<char>>, v: JsonModel) -> Result<
    JsonModel,
    Seq<char>,
>
    decreases parts.len(),
{
    if parts.len() == 0 {
        Err("Empty path"@)
    } else if parts.len() == 1 {
        match m {
            JsonModel::Object(entries) => Ok(JsonModel::Object(entries_insert(entries, parts[0], v))),
            _ => Err("Cannot set field on non-object at: "@ + parts[0]),
        }
    } else {
        match m {
            JsonModel::Object(entries) => match entries_lookup(entries, parts[0]) {
                None => Err("Path not found: "@ + parts[0]),
                Some(child) => match set_path(child, parts.skip(1), v) {
                    Ok(c) => Ok(JsonModel::Object(entries_insert(entries, parts[0], c))),
                    Err(e) => Err(e),
                },
            },
            _ => Err("Path not found: "@ + parts[0]),
        }
    }
}

/// The text that a value is shown as: strings bare, numbers as written,
/// arrays and objects in brackets with `, ` between their items.
pub open spec fn text_of(m: JsonModel) -> Seq<char>
    decreases m,
{
    match m {
        JsonModel::Null => "null"@,
        JsonModel::Bool(b) => if b {
            "true"@
        } else {
            "false"@
        },
        JsonModel::Number(n) => n,
        JsonModel::Str(s) => s,
        JsonModel::Array(items) => "["@ + join_spec(texts_of(items), ", "@) + "]"@,
        JsonModel::Object(entries) => "{"@ + join_spec(members_text(entries), ", "@) + "}"@,
    }
}

/// The texts of the items of an array.
pub open spec fn texts_of(items: Seq<JsonModel>) -> Seq<Seq<char>>
    decreases items,
{
    if items.len() == 0 {
        Seq::empty()
    } else {
        texts_of(items.subrange(0, items.len() - 1)).push(text_of(items[items.len() - 1]))
    }
}

/// The texts of the members of an object, each as `"key": value`.
pub open spec fn members_text(entries: Seq<(Seq<char>, JsonModel)>) -> Seq<Seq<char>>
    decreases entries,
{
    if entries.len() == 0 {
        Seq::empty()
    } else {
        members_text(entries.subrange(0, entries.len() - 1)).push(
            "\""@ + entries[entries.len() - 1].0 + "\": "@ + text_of(entries[entries.len() - 1].1),
        )
    }
}

proof fn lemma_texts_of(items: Seq<JsonModel>)
    ensures
        texts_of(items).len() == items.len(),
        forall|i: int| 0 <= i < items.len() ==> texts_of(items)[i] == text_of(items[i]),
    decreases items.len(),
{
    if items.len() > 0 {
        let init = items.subrange(0, items.len() - 1);
        lemma_texts_of(init);
        assert forall|i: int| 0 <= i < items.len() implies texts_of(items)[i] == text_of(
            items[i],
        ) by {
            if i < items.len() - 1 {
                assert(init[i] == items[i]);
            }
        }
    }
}

proof fn lemma_members_text(entries: Seq<(Seq<char>, JsonModel)>)
    ensures
        members_text(entries).len() == entries.len(),
        forall|i: int|
            0 <= i < entries.len() ==> members_text(entries)[i] == "\""@ + entries[i].0 + "\": "@
                + text_of(entries[i].1),
    decreases entries.len(),
{
    if entries.len() > 0 {
        let init = entries.subrange(0, entries.len() - 1);
        lemma_members_text(init);
        assert forall|i: int| 0 <= i < entries.len() implies members_text(entries)[i] == "\""@
            + entries[i].0 + "\": "@ + text_of(entries[i].1) by {
            if i < entries.len() - 1 {
                assert(init[i] == entries[i]);
            }
        }
    }
}

// ---------------------------------------------------------------------------
// Lemmas about member lookup and update
// ---------------------------------------------------------------------------

proof fn lemma_lookup_found(
    entries: Seq<(Seq<char>, JsonModel)>,
    key: Seq<char>,
    v: JsonModel,
    i: int,
)
    requires
        0 <= i < entries.len(),
        entries[i].0 == key,
        forall|j: int| 0 <= j < i ==> entries[j].0 != key,
    ensures
        entries_lookup(entries, key) == Some(entries[i].1),
        entries_insert(entries, key, v) == entries.update(i, (key, v)),
    decreases i,
{
    if i == 0 {
        assert(seq![(key, v)] + entries.skip(1) =~= entries.update(0, (key, v)));
    } else {
        let rest = entries.skip(1);
        assert forall|j: int| 0 <= j < i - 1 implies rest[j].0 != key by {
            assert(rest[j] == entries[j + 1]);
        }
        lemma_lookup_found(rest, key, v, i - 1);
        assert(seq![entries[0]] + rest.update(i - 1, (key, v)) =~= entries.update(i, (key, v)));
    }
}

proof fn lemma_lookup_absent(entries: Seq<(Seq<char>, JsonModel)>, key: Seq<char>, v: JsonModel)
    requires
        forall|j: int| 0 <= j < entries.len() ==> entries[j].0 != key,
    ensures
        entries_lookup(entries, key) == None::<JsonModel>,
        entries_insert(entries, key, v) == entries.push((key, v)),
    decreases entries.len(),
{
    if entries.len() == 0 {
        assert(seq![(key, v)] =~= entries.push((key, v)));
    } else {
        let rest = entries.skip(1);
        assert forall|j: int| 0 <= j < rest.len() implies rest[j].0 != key by {
            assert(rest[j] == entries[j + 1]);
        }
        lemma_lookup_absent(rest, key, v);
        assert(seq![entries[0]] + rest.push((key, v)) =~= entries.push((key, v)));
    }
}

proof fn lemma_path_skip(parts: Seq<Seq<char>>, i: int)
    requires
        0 <= i < parts.len(),
    ensures
        parts.skip(i)[0] == parts[i],
        parts.skip(i).skip(1) == parts.skip(i + 1),
{
    assert(parts.skip(i).skip(1) =~= parts.skip(i + 1));
}

/// The members of the object `v` denotes, when it is one.
proof fn lemma_object_model(v: JsonValue, entries: Vec<(String, JsonValue)>)
    requires
        v == JsonValue::Object(entries),
    ensures
        v.model() == JsonModel::Object(entries_model(entries@)),
{
    let x = match v.model() {
        JsonModel::Object(x) => x,
        _ => Seq::empty(),
    };
    assert(x =~= entries_model(entries@));
}

// ---------------------------------------------------------------------------
// Operations
// ---------------------------------------------------------------------------

/// The position of the first member named `key`, if any.
pub fn find_member(entries: &Vec<(String, JsonValue)>, key: &str) -> (r: Option<usize>)
    ensures
        match r {
            Some(i) => i < entries.len() && entries@[i as int].0@ == key@ && forall|j: int|
                0 <= j < i ==> entries@[j].0@ != key@,
            None => forall|j: int| 0 <= j < entries.len() ==> entries@[j].0@ != key@,
        },
{
    let mut i: usize = 0;
    while i < entries.len()
        invariant
            i <= entries.len(),
            forall|j: int| 0 <= j < i ==> entries@[j].0@ != key@,
        decreases entries.len() - i,
    {
        if str_equal(entries[i].0.as_str(), key) {
            return Some(i);
        }
        i += 1;
    }
    None
}

impl JsonValue {
    /// An independent copy of this document.
    #[verifier::loop_isolation(false)]
    pub fn deep_copy(&self) -> (r: JsonValue)
        ensures
            r.model() == self.model(),
        decreases self,
    {
        match self {
            JsonValue::Null => JsonValue::Null,
            JsonValue::Bool(b) => JsonValue::Bool(*b),
            JsonValue::Number(n) => JsonValue::Number(n.clone()),
            JsonValue::Str(s) => JsonValue::Str(s.clone()),
            JsonValue::Array(items) => {
                let mut out: Vec<JsonValue> = Vec::new();
                let mut i: usize = 0;
                while i < items.len()
                    invariant
                        i <= items.len(),
                        out.len() == i,
                        forall|j: int| 0 <= j < i ==> out@[j].model() == items@[j].model(),
                    decreases items.len() - i,
                {
                    let c = items[i].deep_copy();
                    out.push(c);
                    i += 1;
                }
                let r = JsonValue::Array(out);
                proof {
                    let a = match r.model() {
                        JsonModel::Array(x) => x,
                        _ => Seq::empty(),
                    };
                    let b = match self.model() {
                        JsonModel::Array(x) => x,
                        _ => Seq::empty(),
                    };
                    assert(a =~= b);
                }
                r
            },
            JsonValue::Object(entries) => {
                let mut out: Vec<(String, JsonValue)> = Vec::new();
                let mut i: usize = 0;
                while i < entries.len()
                    invariant
                        i <= entries.len(),
                        out.len() == i,
                        forall|j: int|
                            0 <= j < i ==> out@[j].0@ == entries@[j].0@ && out@[j].1.model()
                                == entries@[j].1.model(),
                    decreases entries.len() - i,
                {
                    let k = entries[i].0.clone();
                    let c = entries[i].1.deep_copy();
                    out.push((k, c));
                    i += 1;
                }
                let r = JsonValue::Object(out);
                proof {
                    let a = match r.model() {
                        JsonModel::Object(x) => x,
                        _ => Seq::empty(),
                    };
                    let b = match self.model() {
                        JsonModel::Object(x) => x,
                        _ => Seq::empty(),
                    };
                    assert(a =~= b);
                }
                r
            },
        }
    }

    /// The member named `key` of an object; nothing for other values.
    pub fn get(&self, key: &str) -> (r: Option<&JsonValue>)
        ensures
            match r {
                Some(c) => member(self.model(), key@) == Some(c.model()),
                None => member(self.model(), key@) == None::<JsonModel>,
            },
    {
        match self {
            JsonValue::Object(entries) => {
                let ghost es = entries_model(entries@);
                proof {
                    lemma_object_model(*self, *entries);
                }
                match find_member(entries, key) {
                    Some(i) => {
                        proof {
                            lemma_lookup_found(es, key@, JsonModel::Null, i as int);
                        }
                        Some(&entries[i].1)
                    },
                    None => {
                        proof {
                            lemma_lookup_absent(es, key@, JsonModel::Null);
                        }
                        None
                    },
                }
            },
            _ => None,
        }
    }
}

/// Whether two documents denote the same value: numbers compare by their
/// text, arrays item by item, objects member by member in order.
pub fn json_equal(a: &JsonValue, b: &JsonValue) -> (r: bool)
    ensures
        r == (a.model() == b.model()),
    decreases a,
{
    match a {
        JsonValue::Null => match b {
            JsonValue::Null => true,
            _ => false,
        },
        JsonValue::Bool(x) => match b {
            JsonValue::Bool(y) => *x == *y,
            _ => false,
        },
        JsonValue::Number(x) => match b {
            JsonValue::Number(y) => str_equal(x.as_str(), y.as_str()),
            _ => false,
        },
        JsonValue::Str(x) => match b {
            JsonValue::Str(y) => str_equal(x.as_str(), y.as_str()),
            _ => false,
        },
        JsonValue::Array(xs) => match b {
            JsonValue::Array(ys) => {
                let ghost ma = match a.model() {
                    JsonModel::Array(m) => m,
                    _ => Seq::empty(),
                };
                let ghost mb = match b.model() {
                    JsonModel::Array(m) => m,
                    _ => Seq::empty(),
                };
                if xs.len() != ys.len() {
                    assert(ma.len() != mb.len());
                    return false;
                }
                let mut i: usize = 0;
                while i < xs.len()
                    invariant
                        *a == JsonValue::Array(*xs),
                        a.model() == JsonModel::Array(ma),
                        b.model() == JsonModel::Array(mb),
                        i <= xs.len(),
                        xs.len() == ys.len(),
                        ma.len() == xs.len(),
                        mb.len() == ys.len(),
                        forall|j: int| 0 <= j < ma.len() ==> ma[j] == xs@[j].model(),
                        forall|j: int| 0 <= j < mb.len() ==> mb[j] == ys@[j].model(),
                        forall|j: int| 0 <= j < i ==> ma[j] == mb[j],
                    decreases xs.len() - i,
                {
                    if !json_equal(&xs[i], &ys[i]) {
                        assert(ma[i as int] != mb[i as int]);
                        return false;
                    }
                    i += 1;
                }
                assert(ma =~= mb);
                true
            },
            _ => false,
        },
        JsonValue::Object(xs) => match b {
            JsonValue::Object(ys) => {
                let ghost ma = match a.model() {
                    JsonModel::Object(m) => m,
                    _ => Seq::empty(),
                };
                let ghost mb = match b.model() {
                    JsonModel::Object(m) => m,
                    _ => Seq::empty(),
                };
                if xs.len() != ys.len() {
                    assert(ma.len() != mb.len());
                    return false;
                }
                let mut i: usize = 0;
                while i < xs.len()
                    invariant
                        *a == JsonValue::Object(*xs),
                        a.model() == JsonModel::Object(ma),
                        b.model() == JsonModel::Object(mb),
                        i <= xs.len(),
                        xs.len() == ys.len(),
                        ma.len() == xs.len(),
                        mb.len() == ys.len(),
                        forall|j: int| 0 <= j < ma.len() ==> ma[j] == (xs@[j].0@, xs@[j].1.model()),
                        forall|j: int| 0 <= j < mb.len() ==> mb[j] == (ys@[j].0@, ys@[j].1.model()),
                        forall|j: int| 0 <= j < i ==> ma[j] == mb[j],
                    decreases xs.len() - i,
                {
                    if !str_equal(xs[i].0.as_str(), ys[i].0.as_str()) {
                        assert(ma[i as int].0 != mb[i as int].0);
                        return false;
                    }
                    if !json_equal(&xs[i].1, &ys[i].1) {
                        assert(ma[i as int].1 != mb[i as int].1);
                        return false;
                    }
                    i += 1;
                }
                assert(ma =~= mb);
                true
            },
            _ => false,
        },
    }
}

/// The value found by following the dot-separated member names of `path`
/// from `value`, copied; nothing when a member is missing on the way.
pub fn get_nested_value(value: &JsonValue, path: &str) -> (r: Option<JsonValue>)
    ensures
        match r {
            Some(v) => get_path(value.model(), split_spec(path@, "."@)) == Some(v.model()),
            None => get_path(value.model(), split_spec(path@, "."@)) == None::<JsonModel>,
        },
{
    let parts = split(path, ".");
    let ghost ps = views(parts@);
    let mut current: &JsonValue = value;
    let mut i: usize = 0;
    assert(ps.skip(0) =~= ps);
    while i < parts.len()
        invariant
            ps == views(parts@),
            ps == split_spec(path@, "."@),
            i <= parts.len(),
            get_path(value.model(), ps) == get_path(current.model(), ps.skip(i as int)),
        decreases parts.len() - i,
    {
        proof {
            lemma_path_skip(ps, i as int);
        }
        match current.get(parts[i].as_str()) {
            Some(c) => {
                current = c;
            },
            None => {
                return None;
            },
        }
        i += 1;
    }
    Some(current.deep_copy())
}

/// The message for a missing member on the way to the one being set.
fn path_not_found(part: &String) -> (r: String)
    ensures
        r@ == "Path not found: "@ + part@,
{
    let mut r = String::from_str("Path not found: ");
    r.append(part.as_str());
    r
}

/// Sets the member at the path `parts[idx..]` of `value` to `new_value`,
/// handing the value back together with the outcome.
fn set_in(value: JsonValue, parts: &Vec<String>, idx: usize, new_value: JsonValue) -> (res: (
    JsonValue,
    Result<(), String>,
))
    requires
        idx < parts.len(),
    ensures
        match set_path(value.model(), views(parts@).skip(idx as int), new_value.model()) {
            Ok(m) => res.1 is Ok && res.0.model() == m,
            Err(e) => res.1 matches Err(s) && s@ == e && res.0.model() == value.model(),
        },
    decreases parts.len() - idx,
{
    proof {
        lemma_path_skip(views(parts@), idx as int);
    }
    let ghost key = parts@[idx as int]@;
    match value {
        JsonValue::Object(mut entries) => {
            let ghost es = entries_model(entries@);
            proof {
                lemma_object_model(value, entries);
            }
            let found = find_member(&entries, parts[idx].as_str());
            if idx + 1 == parts.len() {
                let k = parts[idx].clone();
                let ghost vm = new_value.model();
                match found {
                    Some(i) => {
                        proof {
                            lemma_lookup_found(es, key, vm, i as int);
                        }
                        let _replaced = entries.remove(i);
                        entries.insert(i, (k, new_value));
                        let r = JsonValue::Object(entries);
                        proof {
                            lemma_object_model(r, entries);
                            assert(entries_model(entries@) =~= es.update(i as int, (key, vm)));
                        }
                        (r, Ok(()))
                    },
                    None => {
                        proof {
                            lemma_lookup_absent(es, key, vm);
                        }
                        entries.push((k, new_value));
                        let r = JsonValue::Object(entries);
                        proof {
                            lemma_object_model(r, entries);
                            assert(entries_model(entries@) =~= es.push((key, vm)));
                        }
                        (r, Ok(()))
                    },
                }
            } else {
                match found {
                    None => {
                        proof {
                            lemma_lookup_absent(es, key, JsonModel::Null);
                        }
                        let msg = path_not_found(&parts[idx]);
                        (JsonValue::Object(entries), Err(msg))
                    },
                    Some(i) => {
                        let (k, child) = entries.remove(i);
                        proof {
                            lemma_lookup_found(es, key, child.model(), i as int);
                        }
                        let (child2, r) = set_in(child, parts, idx + 1, new_value);
                        let ghost c2 = child2.model();
                        entries.insert(i, (k, child2));
                        let v = JsonValue::Object(entries);
                        proof {
                            lemma_lookup_found(es, key, c2, i as int);
                            lemma_object_model(v, entries);
                            assert(entries_model(entries@) =~= es.update(i as int, (key, c2)));
                            if r is Err {
                                assert(es.update(i as int, (key, c2)) =~= es);
                            }
                        }
                        (v, r)
                    },
                }
            }
        },
        other => {
            if idx + 1 == parts.len() {
                let mut msg = String::from_str("Cannot set field on non-object at: ");
                msg.append(parts[idx].as_str());
                (other, Err(msg))
            } else {
                let msg = path_not_found(&parts[idx]);
                (other, Err(msg))
            }
        },
    }
}

/// Sets the value at the dot-separated member path `path` of `value`.
///
/// Every member on the way must exist and the last one is set on an object;
/// otherwise the value is left as it was and the error says why.
pub fn set_nested_value(value: &mut JsonValue, path: &str, new_value: JsonValue) -> (r: Result<
    (),
    String,
>)
    ensures
        match set_path(old(value).model(), split_spec(path@, "."@), new_value.model()) {
            Ok(m) => r is Ok && final(value).model() == m,
            Err(e) => r matches Err(s) && s@ == e && final(value).model() == old(value).model(),
        },
{
    let parts = split(path, ".");
    assert(views(parts@).skip(0) =~= views(parts@));
    if parts.len() == 0 {
        return Err(String::from_str("Empty path"));
    }
    let mut current = JsonValue::Null;
    std::mem::swap(&mut current, value);
    let (updated, r) = set_in(current, &parts, 0, new_value);
    *value = updated;
    r
}

/// The text a value is shown as: strings bare, numbers as written, `null`,
/// `true` and `false`, arrays as `[a, b]` and objects as `{"k": v}`.
#[verifier::loop_isolation(false)]
pub fn value_to_string(value: &JsonValue) -> (r: String)
    ensures
        r@ == text_of(value.model()),
    decreases value,
{
    match value {
        JsonValue::Null => String::from_str("null"),
        JsonValue::Bool(b) => if *b {
            String::from_str("true")
        } else {
            String::from_str("false")
        },
        JsonValue::Number(n) => n.clone(),
        JsonValue::Str(s) => s.clone(),
        JsonValue::Array(items) => {
            let mut pieces: Vec<String> = Vec::new();
            let mut i: usize = 0;
            while i < items.len()
                invariant
                    i <= items.len(),
                    pieces.len() == i,
                    forall|j: int| 0 <= j < i ==> pieces@[j]@ == text_of(items@[j].model()),
                decreases items.len() - i,
            {
                let t = value_to_string(&items[i]);
                pieces.push(t);
                i += 1;
            }
            let mut r = String::from_str("[");
            let body = join(&pieces, ", ");
            r.append(body.as_str());
            r.append("]");
            proof {
                let ms = match value.model() {
                    JsonModel::Array(x) => x,
                    _ => Seq::empty(),
                };
                lemma_texts_of(ms);
                assert(views(pieces@) =~= texts_of(ms));
            }
            r
        },
        JsonValue::Object(entries) => {
            let mut pieces: Vec<String> = Vec::new();
            let mut i: usize = 0;
            while i < entries.len()
                invariant
                    i <= entries.len(),
                    pieces.len() == i,
                    forall|j: int|
                        0 <= j < i ==> pieces@[j]@ == "\""@ + entries@[j].0@ + "\": "@ + text_of(
                            entries@[j].1.model(),
                        ),
                decreases entries.len() - i,
            {
                let mut p = String::from_str("\"");
                p.append(entries[i].0.as_str());
                p.append("\": ");
                let t = value_to_string(&entries[i].1);
                p.append(t.as_str());
                pieces.push(p);
                i += 1;
            }
            let mut r = String::from_str("{");
            let body = join(&pieces, ", ");
            r.append(body.as_str());
            r.append("}");
            proof {
                let es = match value.model() {
                    JsonModel::Object(x) => x,
                    _ => Seq::empty(),
                };
                lemma_members_text(es);
                assert(views(pieces@) =~= members_text(es));
            }
            r
        },
    }
}

/// Each member of an object shown as text, keyed as before.
pub fn hashmap_value_to_string(map: &Vec<(String, JsonValue)>) -> (r: Vec<(String, String)>)
    ensures
        r.len() == map.len(),
        forall|i: int|
            0 <= i < map.len() ==> r@[i].0@ == map@[i].0@ && r@[i].1@ == text_of(
                map@[i].1.model(),
            ),
{
    let mut out: Vec<(String, String)> = Vec::new();
    let mut i: usize = 0;
    while i < map.len()
        invariant
            i <= map.len(),
            out.len() == i,
            forall|j: int|
                0 <= j < i ==> out@[j].0@ == map@[j].0@ && out@[j].1@ == text_of(
                    map@[j].1.model(),
                ),
        decreases map.len() - i,
    {
        let k = map[i].0.clone();
        let t = value_to_string(&map[i].1);
        out.push((k, t));
        i += 1;
    }
    out
}

// ---------------------------------------------------------------------------
// Laws
// ---------------------------------------------------------------------------

/// Looking a member up right after setting it gives the value set; other
/// members are as before.
pub proof fn law_lookup_insert(
    entries: Seq<(Seq<char>, JsonModel)>,
    key: Seq<char>,
    other: Seq<char>,
    v: JsonModel,
)
    ensures
        entries_lookup(entries_insert(entries, key, v), key) == Some(v),
        other != key ==> entries_lookup(entries_insert(entries, key, v), other) == entries_lookup(
            entries,
            other,
        ),
    decreases entries.len(),
{
    let ins = entries_insert(entries, key, v);
    if entries.len() == 0 {
        assert(ins[0] == (key, v));
        assert(ins.skip(1) =~= Seq::<(Seq<char>, JsonModel)>::empty());
        assert(entries_lookup(ins.skip(1), other) == None::<JsonModel>);
    } else if entries[0].0 == key {
        assert(ins[0] == (key, v));
        assert(ins.skip(1) =~= entries.skip(1));
    } else {
        assert(ins[0] == entries[0]);
        law_lookup_insert(entries.skip(1), key, other, v);
        assert(ins.skip(1) =~= entries_insert(entries.skip(1), key, v));
    }
}

/// Reading a path right after a successful write to it gives the value
/// written: if `set_path(m, parts, v)` succeeds with `m2`, then
/// `get_path(m2, parts)` is `v`.
pub proof fn law_get_after_set(m: JsonModel, parts: Seq<Seq<char>>, v: JsonModel)
    ensures
        set_path(m, parts, v) matches Ok(m2) ==> get_path(m2, parts) == Some(v),
    decreases parts.len(),
{
    if let Ok(m2) = set_path(m, parts, v) {
        let key = parts[0];
        let rest = parts.skip(1);
        if let JsonModel::Object(entries) = m {
            if parts.len() == 1 {
                law_lookup_insert(entries, key, key, v);
                assert(m2 == JsonModel::Object(entries_insert(entries, key, v)));
                assert(member(m2, key) == Some(v));
                assert(rest.len() == 0);
                assert(get_path(v, rest) == Some(v));
            } else {
                let child = entries_lookup(entries, key)->Some_0;
                let c = set_path(child, rest, v)->Ok_0;
                assert(m2 == JsonModel::Object(entries_insert(entries, key, c)));
                law_lookup_insert(entries, key, key, c);
                assert(member(m2, key) == Some(c));
                law_get_after_set(child, rest, v);
            }
        }
    }
}

} // verus!
