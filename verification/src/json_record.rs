//! JSON values as the decoders of records read them, and the members of a
//! JSON object.

use vstd::prelude::*;

verus! {

/// A JSON value. Integers are kept as the JSON parser keeps them:
/// non-negative ones as `u64`, negative ones as `i64`; the value of a number
/// with a fraction or an exponent is not kept, as no decoder reads it.
#[derive(Debug)]
pub enum JsonField {
    Null,
    Bool(bool),
    PosInt(u64),
    NegInt(i64),
    /// A number with a fraction or an exponent.
    Float,
    Str(String),
    Array(Vec<JsonField>),
    Object(Vec<(String, JsonField)>),
}

/// A JSON value as a mathematical value.
pub enum JsonView {
    Null,
    Bool(bool),
    PosInt(u64),
    NegInt(i64),
    Float,
    Str(Seq<char>),
    Array(Seq<JsonView>),
    Object(Seq<(Seq<char>, JsonView)>),
}

/// The mathematical value of `v`.
pub open spec fn json_view(v: JsonField) -> JsonView
    decreases v,
{
    match v {
        JsonField::Null => JsonView::Null,
        JsonField::Bool(b) => JsonView::Bool(b),
        JsonField::PosInt(u) => JsonView::PosInt(u),
        JsonField::NegInt(i) => JsonView::NegInt(i),
        JsonField::Float => JsonView::Float,
        JsonField::Str(s) => JsonView::Str(s@),
        JsonField::Array(items) => JsonView::Array(
            Seq::new(
                items@.len(),
                |i: int|
                    if 0 <= i < items.len() {
                        json_view(items[i])
                    } else {
                        JsonView::Null
                    },
            ),
        ),
        JsonField::Object(ms) => JsonView::Object(
            Seq::new(
                ms@.len(),
                |i: int|
                    if 0 <= i < ms.len() {
                        (ms[i].0@, json_view(ms[i].1))
                    } else {
                        (Seq::empty(), JsonView::Null)
                    },
            ),
        ),
    }
}

/// A copy of `v`, with the same mathematical value.
pub fn json_clone(v: &JsonField) -> (res: JsonField)
    ensures
        json_view(res) == json_view(*v),
    decreases v,
{
    match v {
        JsonField::Null => JsonField::Null,
        JsonField::Bool(b) => JsonField::Bool(*b),
        JsonField::PosInt(u) => JsonField::PosInt(*u),
        JsonField::NegInt(i) => JsonField::NegInt(*i),
        JsonField::Float => JsonField::Float,
        JsonField::Str(s) => JsonField::Str(s.clone()),
        JsonField::Array(items) => {
            let mut out: Vec<JsonField> = Vec::new();
            let mut i: usize = 0;
            while i < items.len()
                invariant
                    *v == JsonField::Array(*items),
                    i <= items@.len(),
                    out@.len() == i,
                    forall|k: int| 0 <= k < i ==> json_view(#[trigger] out@[k]) == json_view(items@[k]),
                decreases items.len() - i,
            {
                proof {
                    assert(decreases_to!(*v => (*v)->Array_0));
                    assert(decreases_to!(*items => items[i as int]));
                    assert(decreases_to!(*v => items[i as int]));
                }
                let c = json_clone(&items[i]);
                out.push(c);
                i = i + 1;
            }
            let ghost out_v = out@;
            let res = JsonField::Array(out);
            proof {
                let a = json_view(res)->Array_0;
                let b = json_view(*v)->Array_0;
                assert forall|k: int| 0 <= k < a.len() implies a[k] == b[k] by {
                    assert(a[k] == json_view(out_v[k]));
                    assert(b[k] == json_view(items@[k]));
                }
                assert(a =~= b);
            }
            res
        },
        JsonField::Object(ms) => {
            let mut out: Vec<(String, JsonField)> = Vec::new();
            let mut i: usize = 0;
            while i < ms.len()
                invariant
                    *v == JsonField::Object(*ms),
                    i <= ms@.len(),
                    out@.len() == i,
                    forall|k: int|
                        0 <= k < i ==> (#[trigger] out@[k]).0@ == ms@[k].0@ && json_view(out@[k].1)
                            == json_view(ms@[k].1),
                decreases ms.len() - i,
            {
                proof {
                    assert(decreases_to!(*v => (*v)->Object_0));
                    assert(decreases_to!(*ms => ms[i as int]));
                    assert(decreases_to!(ms[i as int] => ms[i as int].1));
                    assert(decreases_to!(*v => ms[i as int].1));
                }
                let c = json_clone(&ms[i].1);
                out.push((ms[i].0.clone(), c));
                i = i + 1;
            }
            let ghost out_v = out@;
            let res = JsonField::Object(out);
            proof {
                let a = json_view(res)->Object_0;
                let b = json_view(*v)->Object_0;
                assert forall|k: int| 0 <= k < a.len() implies a[k] == b[k] by {
                    assert(a[k] == (out_v[k].0@, json_view(out_v[k].1)));
                    assert(b[k] == (ms@[k].0@, json_view(ms@[k].1)));
                }
                assert(a =~= b);
            }
            res
        },
    }
}

/// The mathematical value of the members `ms` of an object.
pub open spec fn members_view(ms: Seq<(String, JsonField)>) -> Seq<(Seq<char>, JsonView)> {
    ms.map_values(|m: (String, JsonField)| (m.0@, json_view(m.1)))
}

/// The mathematical value of an object is that of its members.
pub proof fn lemma_object_view(ms: Vec<(String, JsonField)>)
    ensures
        json_view(JsonField::Object(ms)) == JsonView::Object(members_view(ms@)),
{
    let a = json_view(JsonField::Object(ms))->Object_0;
    assert(a =~= members_view(ms@));
}

/// The mathematical value of an array is that of its items.
pub proof fn lemma_array_view(items: Vec<JsonField>)
    ensures
        json_view(JsonField::Array(items)) == JsonView::Array(
            items@.map_values(|x: JsonField| json_view(x)),
        ),
{
    let a = json_view(JsonField::Array(items))->Array_0;
    assert(a =~= items@.map_values(|x: JsonField| json_view(x)));
}

/// Position of the first member named `key`.
pub open spec fn first_index(mv: Seq<(Seq<char>, JsonView)>, key: Seq<char>) -> Option<int>
    decreases mv.len(),
{
    if mv.len() == 0 {
        None
    } else if mv.last().0 == key && first_index(mv.drop_last(), key) is None {
        Some(mv.len() - 1)
    } else {
        first_index(mv.drop_last(), key)
    }
}

/// The value of the first member named `key`.
pub open spec fn v_lookup(mv: Seq<(Seq<char>, JsonView)>, key: Seq<char>) -> Option<JsonView> {
    match first_index(mv, key) {
        Some(i) => Some(mv[i].1),
        None => None,
    }
}

/// `x`, or `null` when there is none.
pub open spec fn or_null(x: Option<JsonView>) -> JsonView {
    match x {
        Some(v) => v,
        None => JsonView::Null,
    }
}

/// The members `mv` with `key` set to `v`, as indexing a JSON object for
/// writing does: the first member named `key` gets the value, or a new
/// member is added at the end.
pub open spec fn v_set(mv: Seq<(Seq<char>, JsonView)>, key: Seq<char>, v: JsonView) -> Seq<
    (Seq<char>, JsonView),
> {
    match first_index(mv, key) {
        Some(i) => mv.update(i, (key, v)),
        None => mv.push((key, v)),
    }
}

pub proof fn lemma_first_index(mv: Seq<(Seq<char>, JsonView)>, key: Seq<char>)
    ensures
        match first_index(mv, key) {
            Some(i) => 0 <= i < mv.len() && mv[i].0 == key && forall|j: int|
                0 <= j < i ==> mv[j].0 != key,
            None => forall|j: int| 0 <= j < mv.len() ==> mv[j].0 != key,
        },
    decreases mv.len(),
{
    if mv.len() > 0 {
        let d = mv.drop_last();
        lemma_first_index(d, key);
        assert forall|j: int| 0 <= j < d.len() implies d[j] == mv[j] by {}
    }
}

proof fn lemma_first_index_is(mv: Seq<(Seq<char>, JsonView)>, key: Seq<char>, i: int)
    requires
        0 <= i < mv.len(),
        mv[i].0 == key,
        forall|j: int| 0 <= j < i ==> mv[j].0 != key,
    ensures
        first_index(mv, key) == Some(i),
    decreases mv.len(),
{
    if i < mv.len() - 1 {
        lemma_first_index_is(mv.drop_last(), key, i);
    } else {
        lemma_first_index(mv.drop_last(), key);
    }
}

proof fn lemma_first_index_none(mv: Seq<(Seq<char>, JsonView)>, key: Seq<char>)
    requires
        forall|j: int| 0 <= j < mv.len() ==> mv[j].0 != key,
    ensures
        first_index(mv, key) is None,
    decreases mv.len(),
{
    if mv.len() > 0 {
        lemma_first_index_none(mv.drop_last(), key);
    }
}

/// Setting a member changes what that name reads and nothing else.
pub proof fn lemma_lookup_set(mv: Seq<(Seq<char>, JsonView)>, k: Seq<char>, v: JsonView, q: Seq<char>)
    ensures
        v_lookup(v_set(mv, k, v), q) == (if q == k {
            Some(v)
        } else {
            v_lookup(mv, q)
        }),
{
    lemma_first_index(mv, k);
    lemma_first_index(mv, q);
    let out = v_set(mv, k, v);
    match first_index(mv, k) {
        Some(i) => {
            assert(out == mv.update(i, (k, v)));
            if q == k {
                lemma_first_index_is(out, k, i);
            } else {
                match first_index(mv, q) {
                    Some(j) => {
                        assert forall|m: int| 0 <= m < j implies out[m].0 != q by {
                            if m == i {
                            } else {
                                assert(out[m] == mv[m]);
                            }
                        }
                        assert(out[j] == mv[j]);
                        lemma_first_index_is(out, q, j);
                    },
                    None => {
                        assert forall|m: int| 0 <= m < out.len() implies out[m].0 != q by {
                            if m != i {
                                assert(out[m] == mv[m]);
                            }
                        }
                        lemma_first_index_none(out, q);
                    },
                }
            }
        },
        None => {
            assert(out == mv.push((k, v)));
            if q == k {
                assert forall|m: int| 0 <= m < mv.len() implies out[m].0 != k by {
                    assert(out[m] == mv[m]);
                }
                lemma_first_index_is(out, k, mv.len() as int);
            } else {
                match first_index(mv, q) {
                    Some(j) => {
                        assert forall|m: int| 0 <= m < j implies out[m].0 != q by {
                            assert(out[m] == mv[m]);
                        }
                        assert(out[j] == mv[j]);
                        lemma_first_index_is(out, q, j);
                    },
                    None => {
                        assert forall|m: int| 0 <= m < out.len() implies out[m].0 != q by {
                            if m < mv.len() {
                                assert(out[m] == mv[m]);
                            }
                        }
                        lemma_first_index_none(out, q);
                    },
                }
            }
        },
    }
}

/// Position of the first member named `key`, as `first_index` gives it.
pub fn first_key_index(ms: &Vec<(String, JsonField)>, key: &str) -> (res: Option<usize>)
    ensures
        match res {
            Some(i) => i < ms@.len() && first_index(members_view(ms@), key@) == Some(i as int),
            None => first_index(members_view(ms@), key@) is None,
        },
{
    let k = String::from_str(key);
    let ghost mv = members_view(ms@);
    let mut i: usize = 0;
    while i < ms.len()
        invariant
            i <= ms@.len(),
            k@ == key@,
            mv == members_view(ms@),
            forall|j: int| 0 <= j < i ==> mv[j].0 != key@,
        decreases ms.len() - i,
    {
        if ms[i].0.eq(&k) {
            proof {
                lemma_first_index_is(mv, key@, i as int);
            }
            return Some(i);
        }
        i = i + 1;
    }
    proof {
        lemma_first_index_none(mv, key@);
    }
    None
}

/// Sets the member `key` of `ms` to `v`, as `obj[key] = v` does.
pub fn obj_set(ms: &mut Vec<(String, JsonField)>, key: &str, v: JsonField)
    ensures
        members_view(final(ms)@) == v_set(members_view(old(ms)@), key@, json_view(v)),
{
    let ghost jv = json_view(v);
    proof {
        lemma_first_index(members_view(ms@), key@);
    }
    match first_key_index(ms, key) {
        Some(i) => {
            ms.set(i, (String::from_str(key), v));
            assert(members_view(ms@) =~= v_set(members_view(old(ms)@), key@, jv));
        },
        None => {
            ms.push((String::from_str(key), v));
            assert(members_view(ms@) =~= v_set(members_view(old(ms)@), key@, jv));
        },
    }
}

/// Takes the member `key` of `ms` out, as `obj[key].take()` does: the member
/// is left `null` (and added as `null` when missing), and its value, or
/// `null`, is returned.
pub fn obj_take(ms: &mut Vec<(String, JsonField)>, key: &str) -> (res: JsonField)
    ensures
        json_view(res) == or_null(v_lookup(members_view(old(ms)@), key@)),
        members_view(final(ms)@) == v_set(members_view(old(ms)@), key@, JsonView::Null),
{
    proof {
        lemma_first_index(members_view(ms@), key@);
    }
    match first_key_index(ms, key) {
        Some(i) => {
            let mut tmp = (String::from_str(key), JsonField::Null);
            ms.set_and_swap(i, &mut tmp);
            assert(members_view(ms@) =~= v_set(members_view(old(ms)@), key@, JsonView::Null));
            tmp.1
        },
        None => {
            ms.push((String::from_str(key), JsonField::Null));
            assert(members_view(ms@) =~= v_set(members_view(old(ms)@), key@, JsonView::Null));
            JsonField::Null
        },
    }
}

/// A copy of the member `key` of `ms`, or `null`, as `obj[key].clone()`
/// gives it.
pub fn obj_get_clone(ms: &Vec<(String, JsonField)>, key: &str) -> (res: JsonField)
    ensures
        json_view(res) == or_null(v_lookup(members_view(ms@), key@)),
{
    match first_key_index(ms, key) {
        Some(i) => json_clone(&ms[i].1),
        None => JsonField::Null,
    }
}

/// The members of a JSON object, in order.
#[derive(Debug)]
pub struct JsonObject {
    pub members: Vec<(String, JsonField)>,
}

/// The value of the first member named `key`.
pub open spec fn member(members: Seq<(String, JsonField)>, key: Seq<char>) -> Option<JsonField>
    decreases members.len(),
{
    if members.len() == 0 {
        None
    } else if members[0].0@ == key {
        Some(members[0].1)
    } else {
        member(members.drop_first(), key)
    }
}

/// A value read as `i64`: an integer in range.
pub open spec fn as_i64(f: JsonField) -> Option<i64> {
    match f {
        JsonField::PosInt(u) => if u <= i64::MAX {
            Some(u as i64)
        } else {
            None
        },
        JsonField::NegInt(i) => Some(i),
        _ => None,
    }
}

/// A value read as a string.
pub open spec fn as_str(f: JsonField) -> Option<Seq<char>> {
    match f {
        JsonField::Str(s) => Some(s@),
        _ => None,
    }
}

/// A value read as a boolean.
pub open spec fn as_bool(f: JsonField) -> Option<bool> {
    match f {
        JsonField::Bool(b) => Some(b),
        _ => None,
    }
}

/// The integer at `key`, or 0 when it is missing or not an `i64`.
pub open spec fn int_or_default(m: Option<JsonField>) -> i64 {
    match m {
        Some(f) => match as_i64(f) {
            Some(i) => i,
            None => 0,
        },
        None => 0,
    }
}

/// The string at `key`, or the empty string.
pub open spec fn str_or_default(m: Option<JsonField>) -> Seq<char> {
    match m {
        Some(f) => match as_str(f) {
            Some(s) => s,
            None => Seq::empty(),
        },
        None => Seq::empty(),
    }
}

/// The boolean at `key`, or `false`.
pub open spec fn bool_or_default(m: Option<JsonField>) -> bool {
    match m {
        Some(f) => match as_bool(f) {
            Some(b) => b,
            None => false,
        },
        None => false,
    }
}

/// The optional integer at `key`: `None` when it is missing, `null`, or
/// not an `i64`.
pub open spec fn opt_int_or_default(m: Option<JsonField>) -> Option<i64> {
    match m {
        Some(f) => as_i64(f),
        None => None,
    }
}

/// The optional string at `key`: `None` when it is missing, `null`, or not
/// a string.
pub open spec fn opt_str_or_default(m: Option<JsonField>) -> Option<Seq<char>> {
    match m {
        Some(f) => as_str(f),
        None => None,
    }
}

/// The view of an optional string.
pub open spec fn opt_view(o: Option<String>) -> Option<Seq<char>> {
    match o {
        Some(s) => Some(s@),
        None => None,
    }
}

/// Position of the first member of `members` named `key`.
pub fn find_member(members: &Vec<(String, JsonField)>, key: &str) -> (res: Option<usize>)
    ensures
        match res {
            Some(i) => i < members@.len() && member(members@, key@) == Some(members@[i as int].1),
            None => member(members@, key@) is None,
        },
{
    let k = String::from_str(key);
    let mut i: usize = 0;
    assert(members@.skip(0) =~= members@);
    while i < members.len()
        invariant
            i <= members@.len(),
            k@ == key@,
            member(members@, key@) == member(members@.skip(i as int), key@),
        decreases members.len() - i,
    {
        let ghost rest = members@.skip(i as int);
        assert(rest.drop_first() =~= members@.skip(i + 1));
        assert(rest[0] == members@[i as int]);
        if members[i].0.eq(&k) {
            return Some(i);
        }
        i = i + 1;
    }
    assert(members@.skip(i as int).len() == 0);
    None
}

impl JsonObject {
    /// The value of the first member named `key`.
    pub open spec fn get(&self, key: Seq<char>) -> Option<JsonField> {
        member(self.members@, key)
    }

    /// Position of the first member named `key`.
    pub fn find(&self, key: &str) -> (res: Option<usize>)
        ensures
            match res {
                Some(i) => i < self.members@.len() && self.get(key@) == Some(
                    self.members@[i as int].1,
                ),
                None => self.get(key@) is None,
            },
    {
        find_member(&self.members, key)
    }

    /// The integer at `key`, or 0 when it is missing or not an `i64`.
    pub fn int_at(&self, key: &str) -> (r: i64)
        ensures
            r == int_or_default(self.get(key@)),
    {
        match self.find(key) {
            Some(i) => match &self.members[i].1 {
                JsonField::PosInt(u) => if *u <= 9223372036854775807u64 {
                    *u as i64
                } else {
                    0
                },
                JsonField::NegInt(n) => *n,
                _ => 0,
            },
            None => 0,
        }
    }

    /// The string at `key`, or the empty string.
    pub fn str_at(&self, key: &str) -> (r: String)
        ensures
            r@ == str_or_default(self.get(key@)),
    {
        match self.find(key) {
            Some(i) => match &self.members[i].1 {
                JsonField::Str(s) => s.clone(),
                _ => String::new(),
            },
            None => String::new(),
        }
    }

    /// The boolean at `key`, or `false`.
    pub fn bool_at(&self, key: &str) -> (r: bool)
        ensures
            r == bool_or_default(self.get(key@)),
    {
        match self.find(key) {
            Some(i) => match &self.members[i].1 {
                JsonField::Bool(b) => *b,
                _ => false,
            },
            None => false,
        }
    }

    /// The optional integer at `key`.
    pub fn opt_int_at(&self, key: &str) -> (r: Option<i64>)
        ensures
            r == opt_int_or_default(self.get(key@)),
    {
        match self.find(key) {
            Some(i) => match &self.members[i].1 {
                JsonField::PosInt(u) => if *u <= 9223372036854775807u64 {
                    Some(*u as i64)
                } else {
                    None
                },
                JsonField::NegInt(n) => Some(*n),
                _ => None,
            },
            None => None,
        }
    }

    /// The optional string at `key`.
    pub fn opt_str_at(&self, key: &str) -> (r: Option<String>)
        ensures
            opt_view(r) == opt_str_or_default(self.get(key@)),
    {
        match self.find(key) {
            Some(i) => match &self.members[i].1 {
                JsonField::Str(s) => Some(s.clone()),
                _ => None,
            },
            None => None,
        }
    }
}

} // verus!
