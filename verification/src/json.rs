//! The JSON value type the library works on, together with its mathematical
//! model.
//!
//! Numbers are carried exactly: integers as `i64`, any other number as its
//! decimal text (variant [`Json::Dec`]). The model of a value is [`JsonV`],
//! built from `Seq` and `int`, reached through [`Json::v`].

use vstd::prelude::*;

verus! {

broadcast use vstd::std_specs::vec::group_vec_axioms;

/// A JSON value. Objects keep their fields in order; key lookup returns the
/// first binding, so earlier fields shadow later ones.
#[derive(Debug, PartialEq, Eq)]
pub enum Json {
    Null,
    Bool(bool),
    Int(i64),
    /// A number that is not an `i64`, carried as its decimal text.
    Dec(String),
    Str(String),
    Arr(Vec<Json>),
    Obj(Vec<(String, Json)>),
}

/// The mathematical model of a [`Json`] value.
#[verifier::ext_equal]
pub enum JsonV {
    Null,
    Bool(bool),
    Int(int),
    Dec(Seq<char>),
    Str(Seq<char>),
    Arr(Seq<JsonV>),
    Obj(Seq<(Seq<char>, JsonV)>),
}

impl Json {
    /// The model of this value.
    pub open spec fn v(self) -> JsonV
        decreases self,
    {
        match self {
            Json::Null => JsonV::Null,
            Json::Bool(b) => JsonV::Bool(b),
            Json::Int(n) => JsonV::Int(n as int),
            Json::Dec(s) => JsonV::Dec(s@),
            Json::Str(s) => JsonV::Str(s@),
            Json::Arr(items) => JsonV::Arr(
                Seq::new(
                    items@.len(),
                    |i: int|
                        if 0 <= i < items@.len() {
                            items@[i].v()
                        } else {
                            JsonV::Null
                        },
                ),
            ),
            Json::Obj(fields) => JsonV::Obj(
                Seq::new(
                    fields@.len(),
                    |i: int|
                        if 0 <= i < fields@.len() {
                            (fields@[i].0@, fields@[i].1.v())
                        } else {
                            (Seq::empty(), JsonV::Null)
                        },
                ),
            ),
        }
    }
}

/// First binding of `key` among `fields`, if any; earlier fields shadow
/// later ones.
pub open spec fn lookup_field(fields: Seq<(Seq<char>, JsonV)>, key: Seq<char>) -> Option<JsonV>
    decreases fields.len(),
{
    if fields.len() == 0 {
        None
    } else if fields[0].0 == key {
        Some(fields[0].1)
    } else {
        lookup_field(fields.skip(1), key)
    }
}

/// Member lookup on the model: the first binding of `key` when the value is
/// an object, `None` otherwise.
pub open spec fn get_v(v: JsonV, key: Seq<char>) -> Option<JsonV> {
    match v {
        JsonV::Obj(fields) => lookup_field(fields, key),
        _ => None,
    }
}

impl Json {
    /// Whether this value is an object.
    pub open spec fn is_obj(self) -> bool {
        self matches Json::Obj(_)
    }

    /// Member lookup: the first binding of `key` when this is an object.
    pub fn get<'a>(&'a self, key: &str) -> (r: Option<&'a Json>)
        ensures
            match r {
                Some(f) => get_v(self.v(), key@) == Some(f.v()),
                None => get_v(self.v(), key@) is None,
            },
    {
        match self {
            Json::Obj(fields) => {
                let n = fields.len();
                let mut i: usize = 0;
                proof {
                    assert(self.v()->Obj_0.skip(0) =~= self.v()->Obj_0);
                }
                while i < n
                    invariant
                        i <= n,
                        n == fields.len(),
                        lookup_field(self.v()->Obj_0, key@) == lookup_field(
                            self.v()->Obj_0.skip(i as int),
                            key@,
                        ),
                        self matches Json::Obj(f) && f == fields,
                    decreases n - i,
                {
                    let ghost seqv = self.v()->Obj_0;
                    proof {
                        assert(seqv.skip(i as int)[0] == seqv[i as int]);
                        assert(seqv.skip(i as int).skip(1) =~= seqv.skip(i as int + 1));
                    }
                    if crate::text::str_eq(fields[i].0.as_str(), key) {
                        return Some(&fields[i].1);
                    }
                    i = i + 1;
                }
                proof {
                    assert(self.v()->Obj_0.skip(i as int) =~= Seq::empty());
                }
                None
            },
            _ => None,
        }
    }

    /// The string under `key`, when there is one.
    pub fn get_str<'a>(&'a self, key: &str) -> (r: Option<&'a String>)
        ensures
            match r {
                Some(s) => get_v(self.v(), key@) == Some(JsonV::Str(s@)),
                None => !(get_v(self.v(), key@) matches Some(v) && v is Str),
            },
    {
        match self.get(key) {
            Some(Json::Str(s)) => Some(s),
            _ => None,
        }
    }

    /// The integer under `key`, when there is one.
    pub fn get_int(&self, key: &str) -> (r: Option<i64>)
        ensures
            match r {
                Some(n) => get_v(self.v(), key@) == Some(JsonV::Int(n as int)),
                None => !(get_v(self.v(), key@) matches Some(v) && v is Int),
            },
    {
        match self.get(key) {
            Some(Json::Int(n)) => Some(*n),
            _ => None,
        }
    }

    /// The array under `key`, when there is one.
    pub fn get_arr<'a>(&'a self, key: &str) -> (r: Option<&'a Vec<Json>>)
        ensures
            match r {
                Some(items) => get_v(self.v(), key@) == Some(
                    JsonV::Arr(Seq::new(items@.len(), |i: int| items@[i].v())),
                ),
                None => !(get_v(self.v(), key@) matches Some(v) && v is Arr),
            },
    {
        match self.get(key) {
            Some(f) => match f {
                Json::Arr(items) => {
                    proof {
                        assert forall|i: int| 0 <= i < items@.len() implies f.v()->Arr_0[i]
                            == items@[i].v() by {}
                        assert(f.v()->Arr_0 =~= Seq::new(
                            items@.len(),
                            |i: int| items@[i].v(),
                        ));
                    }
                    Some(items)
                },
                _ => None,
            },
            None => None,
        }
    }

    /// A structural copy of this value.
    pub fn deep_clone(&self) -> (r: Json)
        ensures
            r.v() == self.v(),
        decreases self,
    {
        match self {
            Json::Null => Json::Null,
            Json::Bool(b) => Json::Bool(*b),
            Json::Int(n) => Json::Int(*n),
            Json::Dec(s) => Json::Dec(clone_string(s)),
            Json::Str(s) => Json::Str(clone_string(s)),
            Json::Arr(items) => {
                let mut out: Vec<Json> = Vec::with_capacity(items.len());
                let n = items.len();
                let mut i: usize = 0;
                while i < n
                    invariant
                        i <= n,
                        n == items.len(),
                        out@.len() == i,
                        forall|j: int| 0 <= j < i ==> #[trigger] out@[j].v() == items@[j].v(),
                        self matches Json::Arr(it) && it == items,
                    decreases n - i,
                {
                    let c = items[i].deep_clone();
                    out.push(c);
                    i = i + 1;
                }
                let r = Json::Arr(out);
                proof {
                    assert(r.v() is Arr);
                    assert(self.v() is Arr);
                    assert(r.v()->Arr_0.len() == out@.len());
                    assert(self.v()->Arr_0.len() == items@.len());
                    assert forall|j: int| 0 <= j < out@.len() implies r.v()->Arr_0[j]
                        == self.v()->Arr_0[j] by {
                        assert(r.v()->Arr_0[j] == out@[j].v());
                        assert(self.v()->Arr_0[j] == items@[j].v());
                    }
                    assert(r.v()->Arr_0 =~= self.v()->Arr_0);
                    assert(r.v() =~~= self.v());
                }
                r
            },
            Json::Obj(fields) => {
                let mut out: Vec<(String, Json)> = Vec::with_capacity(fields.len());
                let n = fields.len();
                let mut i: usize = 0;
                while i < n
                    invariant
                        i <= n,
                        n == fields.len(),
                        out@.len() == i,
                        forall|j: int| 0 <= j < i ==> #[trigger] out@[j].0@ == fields@[j].0@,
                        forall|j: int| 0 <= j < i ==> #[trigger] out@[j].1.v() == fields@[j].1.v(),
                        self matches Json::Obj(f) && f == fields,
                    decreases n - i,
                {
                    let k = clone_string(&fields[i].0);
                    let val = fields[i].1.deep_clone();
                    out.push((k, val));
                    i = i + 1;
                    proof {
                        assert(out@[i - 1].0 == k);
                        assert(out@[i - 1].1 == val);
                    }
                }
                let r = Json::Obj(out);
                proof {
                    assert(r.v() is Obj);
                    assert(self.v() is Obj);
                    assert(r.v()->Obj_0.len() == out@.len());
                    assert(self.v()->Obj_0.len() == fields@.len());
                    assert forall|j: int| 0 <= j < out@.len() implies r.v()->Obj_0[j]
                        == self.v()->Obj_0[j] by {
                        assert(r.v()->Obj_0[j] == (out@[j].0@, out@[j].1.v()));
                        assert(self.v()->Obj_0[j] == (fields@[j].0@, fields@[j].1.v()));
                    }
                    assert(r.v()->Obj_0 =~= self.v()->Obj_0);
                    assert(r.v() =~~= self.v());
                }
                r
            },
        }
    }
}

/// A copy of a string (`String::clone`, which vstd specifies exactly).
pub fn clone_string(s: &String) -> (r: String)
    ensures
        r@ == s@,
{
    s.clone()
}

/// An empty JSON object.
pub fn empty_obj() -> (r: Json)
    ensures
        r.v() == JsonV::Obj(Seq::empty()),
{
    let r = Json::Obj(Vec::new());
    proof {
        assert(r.v()->Obj_0 =~= Seq::<(Seq<char>, JsonV)>::empty());
    }
    r
}

} // verus!
