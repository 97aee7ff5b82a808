//! The JSON model.
//!
//! A parsed document is held as a tree of plain values: strings, numbers
//! (kept as their textual form), booleans, arrays and objects. An object is
//! an ordered list of key/value pairs; a key is looked up by first match.
//! The abstract form of a tree is [`JsonData`], built from sequences, and is
//! what every contract speaks about.
use vstd::prelude::*;

verus! {

broadcast use vstd::std_specs::vec::group_vec_axioms;

/// The abstract form of a JSON tree: what contracts and proofs speak about.
pub enum JsonData {
    Null,
    Bool(bool),
    Number(Seq<char>),
    Text(Seq<char>),
    Array(Seq<JsonData>),
    Object(Seq<(Seq<char>, JsonData)>),
}

/// A parsed JSON tree. A number is kept in its textual form, so that the
/// tree holds plain values only.
#[derive(Debug)]
pub enum JsonValue {
    Null,
    Bool(bool),
    Number(String),
    Text(String),
    Array(Vec<JsonValue>),
    Object(Vec<(String, JsonValue)>),
}

impl DeepView for JsonValue {
    type V = JsonData;

    open spec fn deep_view(&self) -> JsonData
        decreases self,
    {
        match self {
            JsonValue::Null => JsonData::Null,
            JsonValue::Bool(b) => JsonData::Bool(*b),
            JsonValue::Number(n) => JsonData::Number(n@),
            JsonValue::Text(s) => JsonData::Text(s@),
            JsonValue::Array(items) => JsonData::Array(deep_view_items(items@)),
            JsonValue::Object(fields) => JsonData::Object(deep_view_fields(fields@)),
        }
    }
}

/// The abstract form of each element of an array, in order.
pub open spec fn deep_view_items(s: Seq<JsonValue>) -> Seq<JsonData>
    decreases s,
{
    if s.len() == 0 {
        Seq::empty()
    } else {
        seq![s[0].deep_view()] + deep_view_items(s.subrange(1, s.len() as int))
    }
}

/// The abstract form of each field of an object, in order.
pub open spec fn deep_view_fields(s: Seq<(String, JsonValue)>) -> Seq<(Seq<char>, JsonData)>
    decreases s,
{
    if s.len() == 0 {
        Seq::empty()
    } else {
        seq![(s[0].0@, s[0].1.deep_view())] + deep_view_fields(s.subrange(1, s.len() as int))
    }
}

pub proof fn lemma_deep_view_items(s: Seq<JsonValue>)
    ensures
        deep_view_items(s).len() == s.len(),
        forall|i: int| 0 <= i < s.len() ==> deep_view_items(s)[i] == s[i].deep_view(),
    decreases s.len(),
{
    if s.len() > 0 {
        let tail = s.subrange(1, s.len() as int);
        lemma_deep_view_items(tail);
        assert(deep_view_items(s) == seq![s[0].deep_view()] + deep_view_items(tail));
        assert forall|i: int| 0 <= i < s.len() implies deep_view_items(s)[i] == s[i].deep_view() by {
            if i > 0 {
                assert(tail[i - 1] == s[i]);
                assert(deep_view_items(s)[i] == deep_view_items(tail)[i - 1]);
            }
        }
    }
}

pub proof fn lemma_deep_view_fields(s: Seq<(String, JsonValue)>)
    ensures
        deep_view_fields(s).len() == s.len(),
        forall|i: int| 0 <= i < s.len() ==> deep_view_fields(s)[i] == (s[i].0@, s[i].1.deep_view()),
    decreases s.len(),
{
    if s.len() > 0 {
        let tail = s.subrange(1, s.len() as int);
        lemma_deep_view_fields(tail);
        assert(deep_view_fields(s) == seq![(s[0].0@, s[0].1.deep_view())] + deep_view_fields(tail));
        assert forall|i: int| 0 <= i < s.len() implies deep_view_fields(s)[i] == (
            s[i].0@,
            s[i].1.deep_view(),
        ) by {
            if i > 0 {
                assert(tail[i - 1] == s[i]);
                assert(deep_view_fields(s)[i] == deep_view_fields(tail)[i - 1]);
            }
        }
    }
}

/// The value of the first field named `key`, if any.
pub open spec fn lookup(fields: Seq<(Seq<char>, JsonData)>, key: Seq<char>) -> Option<JsonData>
    decreases fields.len(),
{
    if fields.len() == 0 {
        None
    } else if fields[0].0 == key {
        Some(fields[0].1)
    } else {
        lookup(fields.subrange(1, fields.len() as int), key)
    }
}

/// The text of an element that is a string; other elements have none.
pub open spec fn as_text(j: JsonData) -> Option<Seq<char>> {
    match j {
        JsonData::Text(t) => Some(t),
        _ => None,
    }
}

/// The strings among `items`, in order; elements of any other type are
/// skipped silently.
pub open spec fn string_items(items: Seq<JsonData>) -> Seq<Seq<char>> {
    items.filter_map(|j: JsonData| as_text(j))
}

/// The value of the first field named `key`, borrowed from the object.
pub fn get_field<'a>(fields: &'a Vec<(String, JsonValue)>, key: &String) -> (r: Option<
    &'a JsonValue,
>)
    ensures
        match r {
            Some(v) => lookup(deep_view_fields(fields@), key@) == Some(v.deep_view()),
            None => lookup(deep_view_fields(fields@), key@) is None,
        },
{
    let ghost vf = deep_view_fields(fields@);
    proof {
        lemma_deep_view_fields(fields@);
        assert(vf.subrange(0, vf.len() as int) =~= vf);
    }
    let mut i: usize = 0;
    while i < fields.len()
        invariant
            i <= fields@.len(),
            vf == deep_view_fields(fields@),
            vf.len() == fields@.len(),
            forall|j: int| 0 <= j < fields@.len() ==> vf[j] == (fields@[j].0@, fields@[j].1.deep_view()),
            lookup(vf, key@) == lookup(vf.subrange(i as int, vf.len() as int), key@),
        decreases fields@.len() - i,
    {
        proof {
            assert(vf.subrange(i as int, vf.len() as int).subrange(
                1,
                vf.len() - i as int,
            ) =~= vf.subrange(i + 1, vf.len() as int));
        }
        if fields[i].0 == *key {
            return Some(&fields[i].1);
        }
        i = i + 1;
    }
    None
}

/// The strings among `items`, in order, as owned values; elements of any
/// other type are skipped silently.
pub fn collect_strings(items: &Vec<JsonValue>) -> (r: Vec<String>)
    ensures
        r.deep_view() == string_items(deep_view_items(items@)),
{
    let ghost vi = deep_view_items(items@);
    proof {
        lemma_deep_view_items(items@);
    }
    let mut out: Vec<String> = Vec::new();
    let mut i: usize = 0;
    while i < items.len()
        invariant
            i <= items@.len(),
            vi == deep_view_items(items@),
            vi.len() == items@.len(),
            forall|j: int| 0 <= j < items@.len() ==> vi[j] == items@[j].deep_view(),
            out.deep_view() == vi.take(i as int).filter_map(|j: JsonData| as_text(j)),
        decreases items@.len() - i,
    {
        proof {
            vi.lemma_filter_map_take_succ(|j: JsonData| as_text(j), i as int);
        }
        match &items[i] {
            JsonValue::Text(t) => {
                out.push(t.clone());
            },
            _ => {},
        }
        i = i + 1;
        proof {
            assert(out.deep_view() =~= vi.take(i as int).filter_map(|j: JsonData| as_text(j)));
        }
    }
    proof {
        assert(vi.take(items@.len() as int) =~= vi);
    }
    out
}

} // verus!
