//! JSON values as the VK API returns them, and the lookups the client makes.
use vstd::prelude::*;
use crate::text::str_eq;

verus! {

/// A JSON value. Integers keep the split that JSON readers make between
/// non-negative and negative values; a number with a fraction or an
/// exponent is kept as its decimal text.
#[derive(Debug)]
pub enum Json {
    Null,
    Bool(bool),
    PosInt(u64),
    NegInt(i64),
    Float(String),
    Str(String),
    Array(Vec<Json>),
    Object(Vec<(String, Json)>),
}

/// The mathematical form of a JSON value: strings as character sequences,
/// arrays and objects as sequences.
pub enum JsonV {
    Null,
    Bool(bool),
    PosInt(u64),
    NegInt(i64),
    Float(Seq<char>),
    Str(Seq<char>),
    Array(Seq<JsonV>),
    Object(Seq<(Seq<char>, JsonV)>),
}

/// The mathematical form of a JSON value.
pub open spec fn json_view(j: Json) -> JsonV
    decreases j,
{
    match j {
        Json::Null => JsonV::Null,
        Json::Bool(b) => JsonV::Bool(b),
        Json::PosInt(u) => JsonV::PosInt(u),
        Json::NegInt(i) => JsonV::NegInt(i),
        Json::Float(s) => JsonV::Float(s@),
        Json::Str(s) => JsonV::Str(s@),
        Json::Array(v) => JsonV::Array(json_seq_view(v@)),
        Json::Object(e) => JsonV::Object(entries_view(e@)),
    }
}

/// The mathematical form of each element.
pub open spec fn json_seq_view(s: Seq<Json>) -> Seq<JsonV>
    decreases s,
{
    if s.len() == 0 {
        Seq::empty()
    } else {
        seq![json_view(s[0])] + json_seq_view(s.drop_first())
    }
}

/// The mathematical form of each entry of an object.
pub open spec fn entries_view(s: Seq<(String, Json)>) -> Seq<(Seq<char>, JsonV)>
    decreases s,
{
    if s.len() == 0 {
        Seq::empty()
    } else {
        seq![(s[0].0@, json_view(s[0].1))] + entries_view(s.drop_first())
    }
}

impl View for Json {
    type V = JsonV;

    open spec fn view(&self) -> JsonV {
        json_view(*self)
    }
}

/// Length and elements of the element views.
pub proof fn lemma_json_seq_view(s: Seq<Json>)
    ensures
        json_seq_view(s).len() == s.len(),
        forall|k: int| 0 <= k < s.len() ==> #[trigger] json_seq_view(s)[k] == json_view(s[k]),
    decreases s.len(),
{
    if s.len() > 0 {
        lemma_json_seq_view(s.drop_first());
        assert forall|k: int| 0 <= k < s.len() implies #[trigger] json_seq_view(s)[k] == json_view(
            s[k],
        ) by {
            if k > 0 {
                assert(json_seq_view(s)[k] == json_seq_view(s.drop_first())[k - 1]);
            }
        }
    }
}

/// Length and elements of the entry views.
pub proof fn lemma_entries_view(s: Seq<(String, Json)>)
    ensures
        entries_view(s).len() == s.len(),
        forall|k: int|
            0 <= k < s.len() ==> #[trigger] entries_view(s)[k] == (s[k].0@, json_view(s[k].1)),
    decreases s.len(),
{
    if s.len() > 0 {
        lemma_entries_view(s.drop_first());
        assert forall|k: int| 0 <= k < s.len() implies #[trigger] entries_view(s)[k] == (
            s[k].0@,
            json_view(s[k].1),
        ) by {
            if k > 0 {
                assert(entries_view(s)[k] == entries_view(s.drop_first())[k - 1]);
            }
        }
    }
}

/// The value of the first entry with key `key`.
pub open spec fn entry_value(entries: Seq<(Seq<char>, JsonV)>, key: Seq<char>) -> Option<JsonV>
    decreases entries.len(),
{
    if entries.len() == 0 {
        None
    } else if entries[0].0 == key {
        Some(entries[0].1)
    } else {
        entry_value(entries.drop_first(), key)
    }
}

/// The value under `key` in an object (the first entry with that key), if any.
pub open spec fn field_opt(j: JsonV, key: Seq<char>) -> Option<JsonV> {
    match j {
        JsonV::Object(entries) => entry_value(entries, key),
        _ => None,
    }
}

/// `j[key]`: the value under `key`, or `null` when `j` is no object or lacks the key.
pub open spec fn field(j: JsonV, key: Seq<char>) -> JsonV {
    match field_opt(j, key) {
        Some(v) => v,
        None => JsonV::Null,
    }
}

/// `j[i]`: element `i` of an array, or `null`.
pub open spec fn item(j: JsonV, i: int) -> JsonV {
    match j {
        JsonV::Array(v) => if 0 <= i < v.len() {
            v[i]
        } else {
            JsonV::Null
        },
        _ => JsonV::Null,
    }
}

/// The value as an `i64`, where it is an integer in range (`Value::as_i64`).
pub open spec fn as_i64(j: JsonV) -> Option<i64> {
    match j {
        JsonV::PosInt(u) => if u <= i64::MAX {
            Some(u as i64)
        } else {
            None
        },
        JsonV::NegInt(i) => Some(i),
        _ => None,
    }
}

/// The characters of a string value (`Value::as_str`).
pub open spec fn as_str(j: JsonV) -> Option<Seq<char>> {
    match j {
        JsonV::Str(s) => Some(s),
        _ => None,
    }
}

/// The elements of an array value (`Value::as_array`).
pub open spec fn as_array(j: JsonV) -> Option<Seq<JsonV>> {
    match j {
        JsonV::Array(v) => Some(v),
        _ => None,
    }
}

/// The elements of an array value, or none for any other value.
pub open spec fn array_or_empty(j: JsonV) -> Seq<JsonV> {
    match j {
        JsonV::Array(v) => v,
        _ => Seq::empty(),
    }
}

/// The characters of a string value, or `default` for any other value.
pub open spec fn str_or(j: JsonV, default: Seq<char>) -> Seq<char> {
    match j {
        JsonV::Str(s) => s,
        _ => default,
    }
}

impl Clone for Json {
    fn clone(&self) -> (r: Self)
        ensures
            r@ == self@,
    {
        self.duplicate()
    }
}

impl Json {
    /// `self[key]`, by reference; `None` stands for the `null` that a missing entry reads as.
    pub fn get(&self, key: &str) -> (r: Option<&Json>)
        ensures
            match r {
                Some(x) => field_opt(self@, key@) == Some(x@),
                None => field_opt(self@, key@) is None,
            },
    {
        match self {
            Json::Object(entries) => {
                let n = entries.len();
                let ghost ev = entries_view(entries@);
                proof {
                    lemma_entries_view(entries@);
                }
                let mut i: usize = 0;
                assert(ev.subrange(0, n as int) =~= ev);
                while i < n
                    invariant
                        n == entries@.len(),
                        i <= n,
                        self@ == JsonV::Object(ev),
                        ev == entries_view(entries@),
                        ev.len() == n,
                        forall|k: int|
                            0 <= k < n ==> #[trigger] ev[k] == (
                                entries@[k].0@,
                                json_view(entries@[k].1),
                            ),
                        entry_value(ev, key@) == entry_value(ev.subrange(i as int, n as int), key@),
                    decreases n - i,
                {
                    assert(ev.subrange(i as int, n as int).drop_first() =~= ev.subrange(
                        i + 1,
                        n as int,
                    ));
                    assert(ev.subrange(i as int, n as int)[0] == ev[i as int]);
                    if str_eq(entries[i].0.as_str(), key) {
                        return Some(&entries[i].1);
                    }
                    i = i + 1;
                }
                None
            },
            _ => None,
        }
    }

    /// `self[key]` is an object.
    pub fn field_is_object(&self, key: &str) -> (b: bool)
        ensures
            b == (field(self@, key@) is Object),
    {
        match self.get(key) {
            Some(Json::Object(_)) => true,
            _ => false,
        }
    }

    /// `self.as_i64()`.
    pub fn to_i64(&self) -> (r: Option<i64>)
        ensures
            r == as_i64(self@),
    {
        match self {
            Json::PosInt(u) => if *u <= 9223372036854775807u64 {
                Some(*u as i64)
            } else {
                None
            },
            Json::NegInt(i) => Some(*i),
            _ => None,
        }
    }

    /// `self.as_str()`.
    pub fn to_str(&self) -> (r: Option<&str>)
        ensures
            match r {
                Some(s) => as_str(self@) == Some(s@),
                None => as_str(self@) is None,
            },
    {
        match self {
            Json::Str(s) => Some(s.as_str()),
            _ => None,
        }
    }

    /// A copy of the value.
    pub fn duplicate(&self) -> (r: Json)
        ensures
            r@ == self@,
        decreases *self,
    {
        match self {
            Json::Null => Json::Null,
            Json::Bool(b) => Json::Bool(*b),
            Json::PosInt(u) => Json::PosInt(*u),
            Json::NegInt(i) => Json::NegInt(*i),
            Json::Float(s) => Json::Float(s.clone()),
            Json::Str(s) => Json::Str(s.clone()),
            Json::Array(v) => {
                let mut out: Vec<Json> = Vec::new();
                let mut i: usize = 0;
                while i < v.len()
                    invariant
                        i <= v@.len(),
                        *self == Json::Array(*v),
                        out@.len() == i,
                        forall|k: int| 0 <= k < i ==> #[trigger] out@[k]@ == v@[k]@,
                    decreases v@.len() - i,
                {
                    assert(decreases_to!(*self => (*self)->Array_0));
                    assert(decreases_to!(*v => v@));
                    assert(decreases_to!(v@ => v@[i as int]));
                    let e = v[i].duplicate();
                    out.push(e);
                    i = i + 1;
                }
                proof {
                    lemma_json_seq_view(out@);
                    lemma_json_seq_view(v@);
                    assert forall|k: int| 0 <= k < out@.len() implies json_seq_view(out@)[k]
                        == json_seq_view(v@)[k] by {
                        assert(out@[k]@ == v@[k]@);
                    }
                    assert(json_seq_view(out@) =~= json_seq_view(v@));
                }
                Json::Array(out)
            },
            Json::Object(entries) => {
                let mut out: Vec<(String, Json)> = Vec::new();
                let mut i: usize = 0;
                while i < entries.len()
                    invariant
                        i <= entries@.len(),
                        *self == Json::Object(*entries),
                        out@.len() == i,
                        forall|k: int|
                            0 <= k < i ==> #[trigger] out@[k].0@ == entries@[k].0@ && out@[k].1@
                                == entries@[k].1@,
                    decreases entries@.len() - i,
                {
                    assert(decreases_to!(*self => (*self)->Object_0));
                    assert(decreases_to!(*entries => entries@));
                    assert(decreases_to!(entries@ => entries@[i as int]));
                    assert(decreases_to!(entries@[i as int] => entries@[i as int].1));
                    let k = entries[i].0.clone();
                    let e = entries[i].1.duplicate();
                    out.push((k, e));
                    i = i + 1;
                }
                proof {
                    lemma_entries_view(out@);
                    lemma_entries_view(entries@);
                    assert(entries_view(out@) =~= entries_view(entries@));
                }
                Json::Object(out)
            },
        }
    }
}

} // verus!
