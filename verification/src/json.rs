use vstd::prelude::*;
use crate::text::str_eq;

verus! {

/// A JSON number: a non-negative integer, a negative one, or any other
/// number, held by its text.
#[derive(Debug, PartialEq)]
pub enum JsonNumber {
    PosInt(u64),
    NegInt(i64),
    Float(String),
}

/// A JSON value. The fields of an object hold distinct keys.
#[derive(Debug, PartialEq)]
pub enum Json {
    Null,
    Bool(bool),
    Number(JsonNumber),
    String(String),
    Array(Vec<Json>),
    Object(Vec<(String, Json)>),
}

pub enum JsonNumberView {
    PosInt(u64),
    NegInt(i64),
    Float(Seq<char>),
}

pub enum JsonView {
    Null,
    Bool(bool),
    Number(JsonNumberView),
    String(Seq<char>),
    Array(Seq<JsonView>),
    Object(Seq<(Seq<char>, JsonView)>),
}

impl View for JsonNumber {
    type V = JsonNumberView;

    open spec fn view(&self) -> JsonNumberView {
        match self {
            JsonNumber::PosInt(n) => JsonNumberView::PosInt(*n),
            JsonNumber::NegInt(n) => JsonNumberView::NegInt(*n),
            JsonNumber::Float(t) => JsonNumberView::Float(t@),
        }
    }
}

pub open spec fn json_view(j: Json) -> JsonView
    decreases j,
{
    match j {
        Json::Null => JsonView::Null,
        Json::Bool(b) => JsonView::Bool(b),
        Json::Number(n) => JsonView::Number(n@),
        Json::String(s) => JsonView::String(s@),
        Json::Array(a) => JsonView::Array(
            Seq::new(
                a.len() as nat,
                |i: int|
                    if 0 <= i < a.len() {
                        proof {
                            vstd::std_specs::vec::axiom_vec_index_decreases(a, i);
                        }
                        json_view(a[i])
                    } else {
                        JsonView::Null
                    },
            ),
        ),
        Json::Object(f) => JsonView::Object(
            Seq::new(
                f.len() as nat,
                |i: int|
                    if 0 <= i < f.len() {
                        proof {
                            vstd::std_specs::vec::axiom_vec_index_decreases(f, i);
                        }
                        (f[i].0@, json_view(f[i].1))
                    } else {
                        (Seq::empty(), JsonView::Null)
                    },
            ),
        ),
    }
}

/// The value of the first field of `fields` whose key is `key`.
pub open spec fn find_field(fields: Seq<(String, Json)>, key: Seq<char>) -> Option<Json>
    decreases fields.len(),
{
    if fields.len() == 0 {
        None
    } else if fields[0].0@ == key {
        Some(fields[0].1)
    } else {
        find_field(fields.drop_first(), key)
    }
}

/// The value that `v` holds under `key`, where `v` is an object that has it.
pub open spec fn json_get(v: Json, key: Seq<char>) -> Option<Json> {
    match v {
        Json::Object(fields) => find_field(fields@, key),
        _ => None,
    }
}

/// The text of `v`, where it is a string.
pub open spec fn json_as_str(v: Option<Json>) -> Option<Seq<char>> {
    match v {
        Some(Json::String(s)) => Some(s@),
        _ => None,
    }
}

/// The elements of `v`, where it is an array.
pub open spec fn json_as_array(v: Option<Json>) -> Option<Seq<Json>> {
    match v {
        Some(Json::Array(a)) => Some(a@),
        _ => None,
    }
}

/// The value of `v`, where it is a non-negative integer.
pub open spec fn json_as_u64(v: Option<Json>) -> Option<u64> {
    match v {
        Some(Json::Number(JsonNumber::PosInt(n))) => Some(n),
        _ => None,
    }
}

impl Json {
    /// The value under `key`, where this is an object that has it.
    pub fn get(&self, key: &str) -> (res: Option<&Json>)
        ensures
            match res {
                Some(r) => json_get(*self, key@) == Some(*r),
                None => json_get(*self, key@) is None,
            },
    {
        match self {
            Json::Object(fields) => {
                let n = fields.len();
                let mut i: usize = 0;
                proof { assert(fields@.skip(0) == fields@); }
                while i < n
                    invariant
                        n == fields@.len(),
                        i <= n,
                        json_get(*self, key@) == find_field(fields@.skip(i as int), key@),
                    decreases n - i,
                {
                    proof {
                        assert(fields@.skip(i as int)[0] == fields@[i as int]);
                        assert(fields@.skip(i as int).drop_first() == fields@.skip(i + 1));
                    }
                    if str_eq(fields[i].0.as_str(), key) {
                        proof { assert(find_field(fields@.skip(i as int), key@) == Some(fields@[i as int].1)); }
                        return Some(&fields[i].1);
                    }
                    i = i + 1;
                }
                None
            },
            _ => None,
        }
    }

    /// The text of this value, where it is a string.
    pub fn as_str(&self) -> (res: Option<&str>)
        ensures
            match res {
                Some(s) => json_as_str(Some(*self)) == Some(s@),
                None => json_as_str(Some(*self)) is None,
            },
    {
        match self {
            Json::String(s) => Some(s.as_str()),
            _ => None,
        }
    }

    /// The elements of this value, where it is an array.
    pub fn as_array(&self) -> (res: Option<&Vec<Json>>)
        ensures
            match res {
                Some(a) => json_as_array(Some(*self)) == Some(a@),
                None => json_as_array(Some(*self)) is None,
            },
    {
        match self {
            Json::Array(a) => Some(a),
            _ => None,
        }
    }

    /// The value of this number, where it is a non-negative integer.
    pub fn as_u64(&self) -> (res: Option<u64>)
        ensures
            res == json_as_u64(Some(*self)),
    {
        match self {
            Json::Number(JsonNumber::PosInt(n)) => Some(*n),
            _ => None,
        }
    }
}

/// The text under `key` of `v`, where `v` has a string there.
pub fn get_str<'a>(v: &'a Json, key: &str) -> (res: Option<&'a str>)
    ensures
        match res {
            Some(s) => json_as_str(json_get(*v, key@)) == Some(s@),
            None => json_as_str(json_get(*v, key@)) is None,
        },
{
    match v.get(key) {
        Some(x) => x.as_str(),
        None => None,
    }
}

/// The views of the fields of an object.
pub open spec fn fields_view(f: Seq<(String, Json)>) -> Seq<(Seq<char>, JsonView)> {
    f.map_values(|e: (String, Json)| (e.0@, json_view(e.1)))
}

/// The views of the elements of an array.
pub open spec fn elements_view(a: Seq<Json>) -> Seq<JsonView> {
    a.map_values(|e: Json| json_view(e))
}

/// A JSON string holding `s`.
pub fn json_string(s: &str) -> (res: Json)
    ensures
        json_view(res) == JsonView::String(s@),
{
    Json::String(s.to_owned())
}

/// A JSON array of `items`.
pub fn json_array(items: Vec<Json>) -> (res: Json)
    ensures
        json_view(res) == JsonView::Array(elements_view(items@)),
{
    let res = Json::Array(items);
    proof {
        assert(json_view(res)->Array_0 =~= elements_view(items@));
    }
    res
}

/// A JSON object of `fields`.
pub fn json_object(fields: Vec<(String, Json)>) -> (res: Json)
    ensures
        json_view(res) == JsonView::Object(fields_view(fields@)),
{
    let res = Json::Object(fields);
    proof {
        assert(json_view(res)->Object_0 =~= fields_view(fields@));
    }
    res
}

/// A field of an object.
pub fn json_field(key: &str, value: Json) -> (res: (String, Json))
    ensures
        res.0@ == key@,
        res.1 == value,
{
    (key.to_owned(), value)
}

/// `fields` with one more field.
pub fn push_field(fields: &mut Vec<(String, Json)>, key: &str, value: Json)
    ensures
        fields_view(final(fields)@) == fields_view(old(fields)@).push((key@, json_view(value))),
{
    let ghost before = fields@;
    fields.push(json_field(key, value));
    proof {
        assert(fields_view(fields@) =~= fields_view(before).push((key@, json_view(value))));
    }
}

/// `items` with one more element.
pub fn push_element(items: &mut Vec<Json>, value: Json)
    ensures
        elements_view(final(items)@) == elements_view(old(items)@).push(json_view(value)),
{
    let ghost before = items@;
    items.push(value);
    proof {
        assert(elements_view(items@) =~= elements_view(before).push(json_view(value)));
    }
}

/// No fields yet.
pub fn no_fields() -> (res: Vec<(String, Json)>)
    ensures
        fields_view(res@) == Seq::<(Seq<char>, JsonView)>::empty(),
{
    let res: Vec<(String, Json)> = Vec::new();
    proof { assert(fields_view(res@) =~= Seq::<(Seq<char>, JsonView)>::empty()); }
    res
}

/// No elements yet.
pub fn no_elements() -> (res: Vec<Json>)
    ensures
        elements_view(res@) == Seq::<JsonView>::empty(),
{
    let res: Vec<Json> = Vec::new();
    proof { assert(elements_view(res@) =~= Seq::<JsonView>::empty()); }
    res
}

/// An object of 1 field.
pub fn json_object1(k1: &str, v1: Json) -> (res: Json)
    ensures
        json_view(res) == JsonView::Object(seq![(k1@, json_view(v1))]),
{
    let mut f = no_fields();
    push_field(&mut f, k1, v1);
    proof { assert(fields_view(f@) =~= seq![(k1@, json_view(v1))]); }
    json_object(f)
}

/// An object of 2 fields.
pub fn json_object2(k1: &str, v1: Json, k2: &str, v2: Json) -> (res: Json)
    ensures
        json_view(res) == JsonView::Object(seq![(k1@, json_view(v1)), (k2@, json_view(v2))]),
{
    let mut f = no_fields();
    push_field(&mut f, k1, v1);
    push_field(&mut f, k2, v2);
    proof { assert(fields_view(f@) =~= seq![(k1@, json_view(v1)), (k2@, json_view(v2))]); }
    json_object(f)
}

/// An object of 3 fields.
pub fn json_object3(k1: &str, v1: Json, k2: &str, v2: Json, k3: &str, v3: Json) -> (res: Json)
    ensures
        json_view(res) == JsonView::Object(seq![(k1@, json_view(v1)), (k2@, json_view(v2)), (k3@, json_view(v3))]),
{
    let mut f = no_fields();
    push_field(&mut f, k1, v1);
    push_field(&mut f, k2, v2);
    push_field(&mut f, k3, v3);
    proof { assert(fields_view(f@) =~= seq![(k1@, json_view(v1)), (k2@, json_view(v2)), (k3@, json_view(v3))]); }
    json_object(f)
}

/// An object of 4 fields.
pub fn json_object4(k1: &str, v1: Json, k2: &str, v2: Json, k3: &str, v3: Json, k4: &str, v4: Json) -> (res: Json)
    ensures
        json_view(res) == JsonView::Object(seq![(k1@, json_view(v1)), (k2@, json_view(v2)), (k3@, json_view(v3)), (k4@, json_view(v4))]),
{
    let mut f = no_fields();
    push_field(&mut f, k1, v1);
    push_field(&mut f, k2, v2);
    push_field(&mut f, k3, v3);
    push_field(&mut f, k4, v4);
    proof { assert(fields_view(f@) =~= seq![(k1@, json_view(v1)), (k2@, json_view(v2)), (k3@, json_view(v3)), (k4@, json_view(v4))]); }
    json_object(f)
}

/// An object of 6 fields.
pub fn json_object6(k1: &str, v1: Json, k2: &str, v2: Json, k3: &str, v3: Json, k4: &str, v4: Json, k5: &str, v5: Json, k6: &str, v6: Json) -> (res: Json)
    ensures
        json_view(res) == JsonView::Object(seq![(k1@, json_view(v1)), (k2@, json_view(v2)), (k3@, json_view(v3)), (k4@, json_view(v4)), (k5@, json_view(v5)), (k6@, json_view(v6))]),
{
    let mut f = no_fields();
    push_field(&mut f, k1, v1);
    push_field(&mut f, k2, v2);
    push_field(&mut f, k3, v3);
    push_field(&mut f, k4, v4);
    push_field(&mut f, k5, v5);
    push_field(&mut f, k6, v6);
    proof { assert(fields_view(f@) =~= seq![(k1@, json_view(v1)), (k2@, json_view(v2)), (k3@, json_view(v3)), (k4@, json_view(v4)), (k5@, json_view(v5)), (k6@, json_view(v6))]); }
    json_object(f)
}

} // verus!
