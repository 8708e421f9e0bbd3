//! A JSON value model: what the library builds and reads of request bodies
//! and API responses. Numbers are kept as their JSON text. An object is a
//! list of members; as with `serde_json::Map`, a later member overrides an
//! earlier one with the same key (see `members`).
use vstd::prelude::*;
use crate::text::str_eq;

verus! {

/// A JSON value.
#[derive(Debug)]
pub enum Json {
    Null,
    Bool(bool),
    /// A number, as its JSON text.
    Number(String),
    Str(String),
    Array(Vec<Json>),
    /// Members in order; a later member overrides an earlier one with the same key.
    Object(Vec<(String, Json)>),
}

/// The mathematical value of a `Json`.
pub enum JsonV {
    Null,
    Bool(bool),
    Number(Seq<char>),
    Str(Seq<char>),
    Array(Seq<JsonV>),
    Object(Seq<(Seq<char>, JsonV)>),
}

/// The view of a `Json` value.
pub open spec fn jv(j: Json) -> JsonV
    decreases j,
{
    match j {
        Json::Null => JsonV::Null,
        Json::Bool(b) => JsonV::Bool(b),
        Json::Number(n) => JsonV::Number(n@),
        Json::Str(s) => JsonV::Str(s@),
        Json::Array(v) => JsonV::Array(
            Seq::new(v@.len(), |i: int| if 0 <= i < v@.len() { jv(v@[i]) } else { JsonV::Null }),
        ),
        Json::Object(f) => JsonV::Object(
            Seq::new(
                f@.len(),
                |i: int|
                    if 0 <= i < f@.len() {
                        (f@[i].0@, jv(f@[i].1))
                    } else {
                        (Seq::<char>::empty(), JsonV::Null)
                    },
            ),
        ),
    }
}

impl View for Json {
    type V = JsonV;

    open spec fn view(&self) -> JsonV {
        jv(*self)
    }
}

/// The views of object members.
pub open spec fn fields_view(f: Seq<(String, Json)>) -> Seq<(Seq<char>, JsonV)> {
    Seq::new(f.len(), |i: int| (f[i].0@, jv(f[i].1)))
}

/// The views of array items.
pub open spec fn items_view(v: Seq<Json>) -> Seq<JsonV> {
    Seq::new(v.len(), |i: int| jv(v[i]))
}

/// An object's view is the views of its members.
pub proof fn lemma_object_view(f: Vec<(String, Json)>)
    ensures
        jv(Json::Object(f)) == JsonV::Object(fields_view(f@)),
{
    if let JsonV::Object(s) = jv(Json::Object(f)) {
        assert(s =~= fields_view(f@));
    }
}

/// An array's view is the views of its items.
pub proof fn lemma_array_view(v: Vec<Json>)
    ensures
        jv(Json::Array(v)) == JsonV::Array(items_view(v@)),
{
    if let JsonV::Array(s) = jv(Json::Array(v)) {
        assert(s =~= items_view(v@));
    }
}

// ---------------------------------------------------------------------------
// Objects as maps
// ---------------------------------------------------------------------------

/// The key-value map that a member list denotes: later members override earlier ones.
pub open spec fn fields_map(f: Seq<(Seq<char>, JsonV)>) -> Map<Seq<char>, JsonV>
    decreases f.len(),
{
    if f.len() == 0 {
        Map::empty()
    } else {
        fields_map(f.drop_last()).insert(f.last().0, f.last().1)
    }
}

/// The members of a JSON value: its key-value map when it is an object, else none.
pub open spec fn members(j: JsonV) -> Map<Seq<char>, JsonV> {
    match j {
        JsonV::Object(f) => fields_map(f),
        _ => Map::empty(),
    }
}

/// The member list of a JSON value when it is an object, else the empty list.
pub open spec fn member_list(j: JsonV) -> Seq<(Seq<char>, JsonV)> {
    match j {
        JsonV::Object(f) => f,
        _ => Seq::empty(),
    }
}

/// The value of the last member with the given key.
pub open spec fn lookup(f: Seq<(Seq<char>, JsonV)>, key: Seq<char>) -> Option<JsonV>
    decreases f.len(),
{
    if f.len() == 0 {
        None
    } else if f.last().0 == key {
        Some(f.last().1)
    } else {
        lookup(f.drop_last(), key)
    }
}

/// `j[key]` on an object, as `serde_json::Value` indexing reads it; `None`
/// where indexing gives `Null` for want of a member (or of an object).
pub open spec fn get(j: JsonV, key: Seq<char>) -> Option<JsonV> {
    lookup(member_list(j), key)
}

/// The text of a JSON string (`Value::as_str`).
pub open spec fn text_of(j: Option<JsonV>) -> Option<Seq<char>> {
    match j {
        Some(JsonV::Str(s)) => Some(s),
        _ => None,
    }
}

/// Looking a key up agrees with the map that the members denote.
pub proof fn lemma_lookup_map(f: Seq<(Seq<char>, JsonV)>, key: Seq<char>)
    ensures
        lookup(f, key) is Some <==> fields_map(f).contains_key(key),
        lookup(f, key) matches Some(v) ==> fields_map(f)[key] == v,
    decreases f.len(),
{
    if f.len() > 0 {
        lemma_lookup_map(f.drop_last(), key);
    }
}

/// Looking a key up after one more member: that member's value when it has
/// the key, else what the lookup found before.
pub proof fn lemma_lookup_push(f: Seq<(Seq<char>, JsonV)>, k: Seq<char>, v: JsonV, key: Seq<char>)
    ensures
        lookup(f.push((k, v)), key) == if k == key {
            Some(v)
        } else {
            lookup(f, key)
        },
{
    assert(f.push((k, v)).drop_last() =~= f);
}

/// A member that no later member shadows is what looking its key up finds.
pub proof fn lemma_lookup_unshadowed(f: Seq<(Seq<char>, JsonV)>, i: int)
    requires
        0 <= i < f.len(),
        forall|j: int| i < j < f.len() ==> (#[trigger] f[j]).0 != f[i].0,
    ensures
        lookup(f, f[i].0) == Some(f[i].1),
    decreases f.len(),
{
    if i < f.len() - 1 {
        assert(f.last() == f[f.len() - 1]);
        lemma_lookup_unshadowed(f.drop_last(), i);
    }
}

/// Concatenating member lists overrides the first list's members with the second's.
pub proof fn lemma_fields_map_concat(a: Seq<(Seq<char>, JsonV)>, b: Seq<(Seq<char>, JsonV)>)
    ensures
        fields_map(a + b) == fields_map(a).union_prefer_right(fields_map(b)),
    decreases b.len(),
{
    if b.len() == 0 {
        assert(a + b == a);
        assert(fields_map(a).union_prefer_right(Map::empty()) =~= fields_map(a));
    } else {
        lemma_fields_map_concat(a, b.drop_last());
        assert((a + b).drop_last() == a + b.drop_last());
        assert((a + b).last() == b.last());
        assert(fields_map(a + b) =~= fields_map(a).union_prefer_right(fields_map(b)));
    }
}

// ---------------------------------------------------------------------------
// Building values
// ---------------------------------------------------------------------------

/// A JSON string holding `s`.
pub fn json_str(s: &str) -> (j: Json)
    ensures
        j@ == JsonV::Str(s@),
{
    Json::Str(s.to_string())
}

/// A member `key: value`.
pub fn member(key: &str, value: Json) -> (m: (String, Json))
    ensures
        m.0@ == key@,
        m.1 == value,
{
    (key.to_string(), value)
}

/// Appends a member to a member list.
pub fn push_member(f: &mut Vec<(String, Json)>, key: &str, value: Json)
    ensures
        fields_view(final(f)@) == fields_view(old(f)@).push((key@, value@)),
{
    let m = member(key, value);
    f.push(m);
    proof {
        assert(fields_view(final(f)@) =~= fields_view(old(f)@).push((key@, value@)));
    }
}

/// An object made of the given members.
pub fn object(f: Vec<(String, Json)>) -> (j: Json)
    ensures
        j@ == JsonV::Object(fields_view(f@)),
{
    proof {
        lemma_object_view(f);
    }
    Json::Object(f)
}

/// An object with one member.
pub fn object1(k: &str, v: Json) -> (j: Json)
    ensures
        j@ == JsonV::Object(seq![(k@, v@)]),
{
    let mut f: Vec<(String, Json)> = Vec::new();
    push_member(&mut f, k, v);
    proof {
        assert(fields_view(f@) =~= seq![(k@, v@)]);
    }
    object(f)
}

/// An object with two members.
pub fn object2(k1: &str, v1: Json, k2: &str, v2: Json) -> (j: Json)
    ensures
        j@ == JsonV::Object(seq![(k1@, v1@), (k2@, v2@)]),
{
    let mut f: Vec<(String, Json)> = Vec::new();
    push_member(&mut f, k1, v1);
    push_member(&mut f, k2, v2);
    proof {
        assert(fields_view(f@) =~= seq![(k1@, v1@), (k2@, v2@)]);
    }
    object(f)
}

/// An array with one item.
pub fn array1(v: Json) -> (j: Json)
    ensures
        j@ == JsonV::Array(seq![v@]),
{
    let mut items: Vec<Json> = Vec::new();
    items.push(v);
    proof {
        lemma_array_view(items);
        assert(items_view(items@) =~= seq![items@[0]@]);
    }
    Json::Array(items)
}

/// Adds `key: value` to an object; a value that is not an object is left as it is
/// (as assigning `body[key]` on a `serde_json` object built by `json!`).
pub fn set_member(j: Json, key: &str, value: Json) -> (r: Json)
    ensures
        j@ is Object ==> r@ == JsonV::Object(member_list(j@).push((key@, value@))),
        !(j@ is Object) ==> r@ == j@,
{
    match j {
        Json::Object(mut f) => {
            proof {
                lemma_object_view(f);
            }
            push_member(&mut f, key, value);
            object(f)
        },
        other => other,
    }
}

// ---------------------------------------------------------------------------
// Reading values
// ---------------------------------------------------------------------------

/// `j[key]`: the value of the last member with that key, if `j` is an object.
pub fn get_member<'a>(j: &'a Json, key: &str) -> (r: Option<&'a Json>)
    ensures
        r is Some <==> get(j@, key@) is Some,
        r matches Some(v) ==> get(j@, key@) == Some(v@),
{
    match j {
        Json::Object(f) => {
            proof {
                lemma_object_view(*f);
            }
            let ghost fv = fields_view(f@);
            proof {
                assert(fv.take(f@.len() as int) =~= fv);
            }
            let mut i = f.len();
            while i > 0
                invariant
                    i <= f@.len(),
                    fv == fields_view(f@),
                    get(j@, key@) == lookup(fv, key@),
                    lookup(fv, key@) == lookup(fv.take(i as int), key@),
                decreases i,
            {
                let ghost pre = fv.take(i as int);
                proof {
                    assert(pre.drop_last() =~= fv.take(i - 1));
                    assert(pre.last() == fv[i - 1]);
                    assert(fv[i - 1] == (f@[i - 1].0@, jv(f@[i - 1].1)));
                }
                if str_eq(f[i - 1].0.as_str(), key) {
                    return Some(&f[i - 1].1);
                }
                i -= 1;
            }
            None
        },
        _ => None,
    }
}

/// The text of a JSON string, if the value is one (`Value::as_str`).
pub fn as_text(j: Option<&Json>) -> (r: Option<&String>)
    ensures
        match r {
            Some(s) => text_of(opt_view(j)) == Some(s@),
            None => text_of(opt_view(j)) is None,
        },
{
    match j {
        Some(Json::Str(s)) => Some(s),
        _ => None,
    }
}

/// The view of an optional reference to a JSON value.
pub open spec fn opt_view(j: Option<&Json>) -> Option<JsonV> {
    match j {
        Some(v) => Some(v@),
        None => None,
    }
}

/// The members of `a` followed by those of `b` (each taken only if it is an
/// object), as copying both into one `serde_json::Map` does.
pub fn merge_objects(a: Json, b: Json) -> (r: Json)
    ensures
        r@ == JsonV::Object(member_list(a@) + member_list(b@)),
        members(r@) == members(a@).union_prefer_right(members(b@)),
{
    let mut f: Vec<(String, Json)> = Vec::new();
    let ghost mut expected: Seq<(Seq<char>, JsonV)> = Seq::empty();
    if let Json::Object(af) = a {
        proof {
            lemma_object_view(af);
            assert(fields_view(f@) =~= Seq::<(Seq<char>, JsonV)>::empty());
        }
        f = af;
        proof {
            expected = fields_view(f@);
        }
    }
    proof {
        assert(expected == member_list(a@)) by {
            if !(a@ is Object) {
            }
        }
        assert(fields_view(f@) == expected) by {
            if !(a@ is Object) {
                assert(fields_view(f@) =~= Seq::<(Seq<char>, JsonV)>::empty());
            }
        }
    }
    if let Json::Object(bf) = b {
        proof {
            lemma_object_view(bf);
        }
        let ghost before = fields_view(f@);
        let mut bf = bf;
        f.append(&mut bf);
        proof {
            assert(fields_view(f@) =~= before + member_list(b@));
        }
    } else {
        proof {
            assert(member_list(b@) =~= Seq::<(Seq<char>, JsonV)>::empty());
            assert(expected + member_list(b@) =~= expected);
        }
    }
    let r = object(f);
    proof {
        lemma_fields_map_concat(member_list(a@), member_list(b@));
    }
    r
}

} // verus!
