//! JSON documents as plain values, parsed by `serde_json`.
use vstd::prelude::*;

verus! {

#[verifier::external_type_specification]
#[verifier::external_body]
pub struct ExJsonValue(serde_json::Value);

/// A JSON value. Numbers keep the text `serde_json` prints for them; object
/// members are in the order `serde_json` keeps them (by key).
pub enum Json {
    Null,
    Bool(bool),
    Number(String),
    Str(String),
    Array(Vec<Json>),
    Object(Vec<(String, Json)>),
}

/// What `serde_json::from_str::<serde_json::Value>` makes of `text`, as a
/// `Json`; none when the text is no JSON document.
pub uninterp spec fn json_parse(text: Seq<char>) -> Option<Json>;

/// `serde_json::Value` to `Json`, variant for variant.
#[verifier::external_body]
fn json_of_value(v: serde_json::Value) -> Json {
    match v {
        serde_json::Value::Null => Json::Null,
        serde_json::Value::Bool(b) => Json::Bool(b),
        serde_json::Value::Number(n) => Json::Number(n.to_string()),
        serde_json::Value::String(s) => Json::Str(s),
        serde_json::Value::Array(a) => Json::Array(a.into_iter().map(json_of_value).collect()),
        serde_json::Value::Object(o) => Json::Object(
            o.into_iter().map(|(k, x)| (k, json_of_value(x))).collect(),
        ),
    }
}

/// `serde_json::from_str::<serde_json::Value>(text)`, converted to `Json`.
///
/// Claimed: the result is the named one. JSON's grammar is `serde_json`'s
/// matter and is not restated here.
#[verifier::external_body]
pub fn parse_json(text: &str) -> (res: Option<Json>)
    ensures
        res == json_parse(text@),
{
    match serde_json::from_str::<serde_json::Value>(text) {
        Ok(v) => Some(json_of_value(v)),
        Err(_) => None,
    }
}

/// The first member of `members` under `key`.
pub open spec fn member(members: Seq<(String, Json)>, key: Seq<char>) -> Option<Json>
    decreases members.len(),
{
    if members.len() == 0 {
        None
    } else if members[0].0@ == key {
        Some(members[0].1)
    } else {
        member(members.drop_first(), key)
    }
}

/// `Value::get(key)`: the member under `key` of an object; none for other values.
pub open spec fn field(doc: Json, key: Seq<char>) -> Option<Json> {
    match doc {
        Json::Object(m) => member(m@, key),
        _ => None,
    }
}

/// The member under `key` of an object (see `field`).
pub fn json_field<'a>(doc: &'a Json, key: &str) -> (res: Option<&'a Json>)
    ensures
        match res {
            Some(r) => field(*doc, key@) == Some(*r),
            None => field(*doc, key@) is None,
        },
{
    match doc {
        Json::Object(m) => {
            let mut i: usize = 0;
            proof {
                assert(m@.skip(0) =~= m@);
                assert(field(*doc, key@) == member(m@, key@));
            }
            while i < m.len()
                invariant
                    i <= m@.len(),
                    field(*doc, key@) == member(m@, key@),
                    member(m@, key@) == member(m@.skip(i as int), key@),
                decreases m@.len() - i,
            {
                proof {
                    assert(m@.skip(i as int)[0] == m@[i as int]);
                    assert(m@.skip(i as int).drop_first() =~= m@.skip(i + 1));
                }
                let k = crate::text::chars_of(m[i].0.as_str());
                if crate::text::str_eq(k.as_slice(), key) {
                    proof {
                        assert(m@[i as int].0@ == key@);
                        assert(member(m@.skip(i as int), key@) == Some(m@[i as int].1));
                    }
                    return Some(&m[i].1);
                }
                i = i + 1;
            }
            None
        },
        _ => None,
    }
}

/// The same JSON value: same kind, same text, members and items alike in
/// order.
pub open spec fn json_same(a: Json, b: Json) -> bool
    decreases a,
{
    match a {
        Json::Null => b is Null,
        Json::Bool(x) => b matches Json::Bool(y) && x == y,
        Json::Number(x) => b matches Json::Number(y) && x@ == y@,
        Json::Str(x) => b matches Json::Str(y) && x@ == y@,
        Json::Array(x) => match b {
            Json::Array(y) => items_same(x@, y@),
            _ => false,
        },
        Json::Object(x) => match b {
            Json::Object(y) => members_same(x@, y@),
            _ => false,
        },
    }
}

/// Items alike, in order.
pub open spec fn items_same(x: Seq<Json>, y: Seq<Json>) -> bool
    decreases x,
{
    if x.len() == 0 {
        y.len() == 0
    } else {
        y.len() > 0 && json_same(x[0], y[0]) && items_same(x.drop_first(), y.drop_first())
    }
}

/// Members alike (same keys, same values), in order.
pub open spec fn members_same(x: Seq<(String, Json)>, y: Seq<(String, Json)>) -> bool
    decreases x,
{
    if x.len() == 0 {
        y.len() == 0
    } else {
        y.len() > 0 && x[0].0@ == y[0].0@ && json_same(x[0].1, y[0].1) && members_same(
            x.drop_first(),
            y.drop_first(),
        )
    }
}

/// Whether two JSON values are the same (see `json_same`).
pub fn json_eq(a: &Json, b: &Json) -> (res: bool)
    ensures
        res == json_same(*a, *b),
    decreases *a,
{
    match a {
        Json::Null => match b {
            Json::Null => true,
            _ => false,
        },
        Json::Bool(x) => match b {
            Json::Bool(y) => *x == *y,
            _ => false,
        },
        Json::Number(x) => match b {
            Json::Number(y) => *x == *y,
            _ => false,
        },
        Json::Str(x) => match b {
            Json::Str(y) => *x == *y,
            _ => false,
        },
        Json::Array(x) => match b {
            Json::Array(y) => {
                let mut i: usize = 0;
                proof {
                    assert(x@.skip(0) =~= x@);
                    assert(y@.skip(0) =~= y@);
                }
                while i < x.len()
                    invariant
                        i <= x@.len(),
                        *a == Json::Array(*x),
                        *b == Json::Array(*y),
                        json_same(*a, *b) == (i <= y@.len() && items_same(
                            x@.skip(i as int),
                            y@.skip(i as int),
                        )),
                    decreases x@.len() - i,
                {
                    if i >= y.len() {
                        return false;
                    }
                    proof {
                        assert(decreases_to!(*a => (*a)->Array_0));
                        assert(decreases_to!(*x => x@));
                        assert(decreases_to!(x@ => x@[i as int]));
                        assert(x@.skip(i as int)[0] == x@[i as int]);
                        assert(y@.skip(i as int)[0] == y@[i as int]);
                        assert(x@.skip(i as int).drop_first() =~= x@.skip(i + 1));
                        assert(y@.skip(i as int).drop_first() =~= y@.skip(i + 1));
                    }
                    if !json_eq(&x[i], &y[i]) {
                        return false;
                    }
                    i = i + 1;
                }
                i == y.len()
            },
            _ => false,
        },
        Json::Object(x) => match b {
            Json::Object(y) => {
                let mut i: usize = 0;
                proof {
                    assert(x@.skip(0) =~= x@);
                    assert(y@.skip(0) =~= y@);
                }
                while i < x.len()
                    invariant
                        i <= x@.len(),
                        *a == Json::Object(*x),
                        *b == Json::Object(*y),
                        json_same(*a, *b) == (i <= y@.len() && members_same(
                            x@.skip(i as int),
                            y@.skip(i as int),
                        )),
                    decreases x@.len() - i,
                {
                    if i >= y.len() {
                        return false;
                    }
                    proof {
                        assert(decreases_to!(*a => (*a)->Object_0));
                        assert(decreases_to!(*x => x@));
                        assert(decreases_to!(x@ => x@[i as int]));
                        assert(decreases_to!(x@[i as int] => x@[i as int].1));
                        assert(x@.skip(i as int)[0] == x@[i as int]);
                        assert(y@.skip(i as int)[0] == y@[i as int]);
                        assert(x@.skip(i as int).drop_first() =~= x@.skip(i + 1));
                        assert(y@.skip(i as int).drop_first() =~= y@.skip(i + 1));
                    }
                    if x[i].0 != y[i].0 || !json_eq(&x[i].1, &y[i].1) {
                        return false;
                    }
                    i = i + 1;
                }
                i == y.len()
            },
            _ => false,
        },
    }
}

} // verus!
