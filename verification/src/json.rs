//! The JSON data model the simplifier works on.
//!
//! A schema is an arbitrary JSON value.  Objects keep their keys in insertion
//! order, so a simplified schema lists its keywords in a predictable order.
//! Numbers are kept exactly: integers as machine integers, non-integral
//! numbers as a sign, an odd mantissa and a power-of-two scale, which is the
//! canonical decomposition of a binary floating-point value.

use vstd::prelude::*;

verus! {

/// A JSON number.
///
/// `Binary(neg, mant, exp)` stands for `(-1)^neg * mant * 2^exp` and is kept
/// canonical: a zero mantissa forces a positive sign and a zero exponent, and
/// a non-zero mantissa is odd.  Every finite double-precision value has
/// exactly one such decomposition, so structural equality of well-formed
/// numbers coincides with numeric equality within each variant.
#[derive(Clone, Copy, Debug, PartialEq, Eq, Structural)]
pub enum Number {
    /// A non-negative integer.
    PosInt(u64),
    /// A strictly negative integer.
    NegInt(i64),
    /// A scaled binary value `(-1)^neg * mant * 2^exp`.
    Binary(bool, u64, i32),
}

/// A JSON value.  Object entries keep their insertion order.
#[derive(Debug)]
pub enum Json {
    Null,
    Bool(bool),
    Num(Number),
    Str(String),
    Arr(Vec<Json>),
    Obj(Vec<(String, Json)>),
}

/// The mathematical shape of a JSON value: strings become character
/// sequences, arrays and objects become sequences.  Contracts in this crate
/// speak about values of this type.
pub enum JsonV {
    Null,
    Bool(bool),
    Num(Number),
    Str(Seq<char>),
    Arr(Seq<JsonV>),
    Obj(Seq<(Seq<char>, JsonV)>),
}

/// The abstraction of one JSON value.
pub open spec fn jv(j: Json) -> JsonV
    decreases j,
{
    match j {
        Json::Null => JsonV::Null,
        Json::Bool(b) => JsonV::Bool(b),
        Json::Num(n) => JsonV::Num(n),
        Json::Str(s) => JsonV::Str(s@),
        Json::Arr(a) => JsonV::Arr(
            Seq::new(a@.len(), |i: int| if 0 <= i < a@.len() { jv(a@[i]) } else { JsonV::Null }),
        ),
        Json::Obj(m) => JsonV::Obj(
            Seq::new(
                m@.len(),
                |i: int|
                    if 0 <= i < m@.len() {
                        (m@[i].0@, jv(m@[i].1))
                    } else {
                        (Seq::empty(), JsonV::Null)
                    },
            ),
        ),
    }
}

impl View for Json {
    type V = JsonV;

    open spec fn view(&self) -> JsonV {
        jv(*self)
    }
}

/// Well-formedness of a number: negative integers are negative, and the
/// scaled binary form is canonical with an exponent that covers every finite
/// double-precision value.
pub open spec fn num_wf(n: Number) -> bool {
    match n {
        Number::PosInt(_) => true,
        Number::NegInt(i) => i < 0,
        Number::Binary(neg, mant, exp) => {
            &&& -1100 <= exp <= 1100
            &&& (mant == 0 ==> !neg && exp == 0)
            &&& (mant != 0 ==> mant % 2 == 1)
        },
    }
}

/// Well-formedness of a JSON value: numbers are canonical and every object
/// has pairwise distinct keys.
pub open spec fn wf(v: JsonV) -> bool
    decreases v,
{
    match v {
        JsonV::Null => true,
        JsonV::Bool(_) => true,
        JsonV::Num(n) => num_wf(n),
        JsonV::Str(_) => true,
        JsonV::Arr(a) => forall|i: int| 0 <= i < a.len() ==> wf(#[trigger] a[i]),
        JsonV::Obj(m) => {
            &&& forall|i: int| 0 <= i < m.len() ==> wf(#[trigger] m[i].1)
            &&& forall|i: int, j: int| 0 <= i < j < m.len() ==> m[i].0 != m[j].0
        },
    }
}

/// The abstraction of an array's elements.
pub open spec fn avs(a: Seq<Json>) -> Seq<JsonV> {
    Seq::new(a.len(), |i: int| jv(a[i]))
}

/// The abstraction of an object's entries.
pub open spec fn kvs(m: Seq<(String, Json)>) -> Seq<(Seq<char>, JsonV)> {
    Seq::new(m.len(), |i: int| (m[i].0@, jv(m[i].1)))
}

pub proof fn lemma_jv_arr(a: Vec<Json>)
    ensures
        jv(Json::Arr(a)) == JsonV::Arr(avs(a@)),
{
    assert(jv(Json::Arr(a))->Arr_0 =~= avs(a@));
}

pub proof fn lemma_jv_obj(m: Vec<(String, Json)>)
    ensures
        jv(Json::Obj(m)) == JsonV::Obj(kvs(m@)),
{
    assert(jv(Json::Obj(m))->Obj_0 =~= kvs(m@));
}

/// The value stored under key `k`, going by the first entry with that key.
pub open spec fn okv_get<V>(m: Seq<(Seq<char>, V)>, k: Seq<char>) -> Option<V>
    decreases m.len(),
{
    if m.len() == 0 {
        None
    } else if m[0].0 == k {
        Some(m[0].1)
    } else {
        okv_get(m.drop_first(), k)
    }
}

/// Whether some entry carries key `k`.
pub open spec fn okv_has<V>(m: Seq<(Seq<char>, V)>, k: Seq<char>) -> bool {
    okv_get(m, k) is Some
}

/// The entries with the first `k` entry replaced by `(k, v)`, or with
/// `(k, v)` appended when no entry carries `k`.
pub open spec fn okv_set<V>(m: Seq<(Seq<char>, V)>, k: Seq<char>, v: V) -> Seq<(Seq<char>, V)>
    decreases m.len(),
{
    if m.len() == 0 {
        seq![(k, v)]
    } else if m[0].0 == k {
        seq![(k, v)] + m.drop_first()
    } else {
        seq![m[0]] + okv_set(m.drop_first(), k, v)
    }
}

/// The entries with the first `k` entry removed; later entries keep their
/// relative order.
pub open spec fn okv_remove<V>(m: Seq<(Seq<char>, V)>, k: Seq<char>) -> Seq<(Seq<char>, V)>
    decreases m.len(),
{
    if m.len() == 0 {
        m
    } else if m[0].0 == k {
        m.drop_first()
    } else {
        seq![m[0]] + okv_remove(m.drop_first(), k)
    }
}

pub proof fn lemma_okv_get_at<V>(m: Seq<(Seq<char>, V)>, k: Seq<char>, i: int)
    requires
        0 <= i < m.len(),
        m[i].0 == k,
        forall|j: int| 0 <= j < i ==> m[j].0 != k,
    ensures
        okv_get(m, k) == Some(m[i].1),
    decreases m.len(),
{
    if i > 0 {
        lemma_okv_get_at(m.drop_first(), k, i - 1);
    }
}

pub proof fn lemma_okv_get_absent<V>(m: Seq<(Seq<char>, V)>, k: Seq<char>)
    requires
        forall|j: int| 0 <= j < m.len() ==> m[j].0 != k,
    ensures
        okv_get(m, k) is None,
    decreases m.len(),
{
    if m.len() > 0 {
        lemma_okv_get_absent(m.drop_first(), k);
    }
}

pub proof fn lemma_okv_set_at<V>(m: Seq<(Seq<char>, V)>, k: Seq<char>, v: V, i: int)
    requires
        0 <= i < m.len(),
        m[i].0 == k,
        forall|j: int| 0 <= j < i ==> m[j].0 != k,
    ensures
        okv_set(m, k, v) =~= m.update(i, (k, v)),
    decreases m.len(),
{
    if i == 0 {
        assert(okv_set(m, k, v) =~= m.update(0, (k, v)));
    } else {
        lemma_okv_set_at(m.drop_first(), k, v, i - 1);
        assert(okv_set(m, k, v) =~= m.update(i, (k, v)));
    }
}

pub proof fn lemma_okv_set_absent<V>(m: Seq<(Seq<char>, V)>, k: Seq<char>, v: V)
    requires
        forall|j: int| 0 <= j < m.len() ==> m[j].0 != k,
    ensures
        okv_set(m, k, v) =~= m.push((k, v)),
    decreases m.len(),
{
    if m.len() > 0 {
        lemma_okv_set_absent(m.drop_first(), k, v);
        assert(okv_set(m, k, v) =~= m.push((k, v)));
    }
}

pub proof fn lemma_okv_remove_at<V>(m: Seq<(Seq<char>, V)>, k: Seq<char>, i: int)
    requires
        0 <= i < m.len(),
        m[i].0 == k,
        forall|j: int| 0 <= j < i ==> m[j].0 != k,
    ensures
        okv_remove(m, k) =~= m.remove(i),
    decreases m.len(),
{
    if i == 0 {
        assert(okv_remove(m, k) =~= m.remove(0));
    } else {
        lemma_okv_remove_at(m.drop_first(), k, i - 1);
        assert(okv_remove(m, k) =~= m.remove(i));
    }
}

pub proof fn lemma_okv_remove_absent<V>(m: Seq<(Seq<char>, V)>, k: Seq<char>)
    requires
        forall|j: int| 0 <= j < m.len() ==> m[j].0 != k,
    ensures
        okv_remove(m, k) =~= m,
    decreases m.len(),
{
    if m.len() > 0 {
        lemma_okv_remove_absent(m.drop_first(), k);
        assert(okv_remove(m, k) =~= m);
    }
}

/// Character-sequence equality of two string slices, decided character by
/// character.
pub fn str_eq(a: &str, b: &str) -> (r: bool)
    ensures
        r == (a@ == b@),
{
    let la = a.unicode_len();
    let lb = b.unicode_len();
    if la != lb {
        proof {
            assert(a@.len() != b@.len());
        }
        return false;
    }
    let mut i: usize = 0;
    while i < la
        invariant
            la == a@.len(),
            la == b@.len(),
            0 <= i <= la,
            forall|k: int| 0 <= k < i ==> a@[k] == b@[k],
        decreases la - i,
    {
        if a.get_char(i) != b.get_char(i) {
            return false;
        }
        i += 1;
    }
    proof {
        assert(a@ =~= b@);
    }
    true
}

/// The position of the first entry keyed `k`, if any.
pub fn obj_find(m: &Vec<(String, Json)>, k: &str) -> (r: Option<usize>)
    ensures
        match r {
            Some(i) => {
                &&& i < m@.len()
                &&& m@[i as int].0@ == k@
                &&& forall|j: int| 0 <= j < i ==> m@[j].0@ != k@
            },
            None => forall|j: int| 0 <= j < m@.len() ==> m@[j].0@ != k@,
        },
{
    let mut i: usize = 0;
    while i < m.len()
        invariant
            0 <= i <= m@.len(),
            forall|j: int| 0 <= j < i ==> m@[j].0@ != k@,
        decreases m@.len() - i,
    {
        if str_eq(m[i].0.as_str(), k) {
            return Some(i);
        }
        i += 1;
    }
    None
}

/// A borrow of the value stored under `k`, if any.
pub fn obj_get<'a>(m: &'a Vec<(String, Json)>, k: &str) -> (r: Option<&'a Json>)
    ensures
        match r {
            Some(v) => okv_get(kvs(m@), k@) == Some(jv(*v)),
            None => okv_get(kvs(m@), k@) is None,
        },
{
    match obj_find(m, k) {
        Some(i) => {
            proof {
                lemma_okv_get_at(kvs(m@), k@, i as int);
            }
            Some(&m[i].1)
        },
        None => {
            proof {
                lemma_okv_get_absent::<JsonV>(kvs(m@), k@);
            }
            None
        },
    }
}

/// Whether the object stores a value under `k`.
pub fn obj_has(m: &Vec<(String, Json)>, k: &str) -> (r: bool)
    ensures
        r == okv_has(kvs(m@), k@),
{
    obj_get(m, k).is_some()
}

/// Stores `v` under `k`: an existing entry keeps its position, a new entry
/// goes to the end.
pub fn obj_set(m: &mut Vec<(String, Json)>, k: &str, v: Json)
    ensures
        kvs(final(m)@) == okv_set(kvs(old(m)@), k@, jv(v)),
{
    let ghost m0 = kvs(old(m)@);
    let key = String::from_str(k);
    match obj_find(m, k) {
        Some(i) => {
            proof {
                lemma_okv_set_at(m0, k@, jv(v), i as int);
            }
            m.set(i, (key, v));
            proof {
                assert(kvs(m@) =~= m0.update(i as int, (k@, jv(v))));
            }
        },
        None => {
            proof {
                lemma_okv_set_absent(m0, k@, jv(v));
            }
            m.push((key, v));
            proof {
                assert(kvs(m@) =~= m0.push((k@, jv(v))));
            }
        },
    }
}

/// Removes the first entry keyed `k` and hands its value back; later entries
/// keep their relative order.
pub fn obj_remove(m: &mut Vec<(String, Json)>, k: &str) -> (r: Option<Json>)
    ensures
        kvs(final(m)@) == okv_remove(kvs(old(m)@), k@),
        match r {
            Some(v) => okv_get(kvs(old(m)@), k@) == Some(jv(v)),
            None => okv_get(kvs(old(m)@), k@) is None,
        },
{
    let ghost m0 = kvs(old(m)@);
    match obj_find(m, k) {
        Some(i) => {
            proof {
                lemma_okv_get_at(m0, k@, i as int);
                lemma_okv_remove_at(m0, k@, i as int);
            }
            let (_, v) = m.remove(i);
            proof {
                assert(kvs(m@) =~= m0.remove(i as int));
            }
            Some(v)
        },
        None => {
            proof {
                lemma_okv_get_absent::<JsonV>(m0, k@);
                lemma_okv_remove_absent::<JsonV>(m0, k@);
                assert(kvs(m@) =~= m0);
            }
            None
        },
    }
}

/// Structural equality of two values, decided at the level of their
/// abstractions.
pub fn json_eq(a: &Json, b: &Json) -> (r: bool)
    ensures
        r == (jv(*a) == jv(*b)),
    decreases *a,
{
    match (a, b) {
        (Json::Null, Json::Null) => true,
        (Json::Bool(x), Json::Bool(y)) => x == y,
        (Json::Num(x), Json::Num(y)) => x == y,
        (Json::Str(x), Json::Str(y)) => str_eq(x.as_str(), y.as_str()),
        (Json::Arr(x), Json::Arr(y)) => {
            if x.len() != y.len() {
                proof {
                    assert(jv(*a)->Arr_0.len() != jv(*b)->Arr_0.len());
                }
                return false;
            }
            let mut i: usize = 0;
            while i < x.len()
                invariant
                    x@.len() == y@.len(),
                    0 <= i <= x@.len(),
                    a == Json::Arr(*x),
                    b == Json::Arr(*y),
                    forall|j: int| 0 <= j < i ==> jv(x@[j]) == jv(y@[j]),
                decreases x@.len() - i,
            {
                proof {
                    assert(decreases_to!(*a => *x));
                    assert(decreases_to!(*x => x@));
                    assert(decreases_to!(x@ => x@[i as int]));
                }
                if !json_eq(&x[i], &y[i]) {
                    proof {
                        assert(jv(*a)->Arr_0[i as int] != jv(*b)->Arr_0[i as int]);
                    }
                    return false;
                }
                i += 1;
            }
            proof {
                assert(jv(*a)->Arr_0 =~= jv(*b)->Arr_0);
            }
            true
        },
        (Json::Obj(x), Json::Obj(y)) => {
            if x.len() != y.len() {
                proof {
                    assert(jv(*a)->Obj_0.len() != jv(*b)->Obj_0.len());
                }
                return false;
            }
            let mut i: usize = 0;
            while i < x.len()
                invariant
                    x@.len() == y@.len(),
                    0 <= i <= x@.len(),
                    a == Json::Obj(*x),
                    b == Json::Obj(*y),
                    forall|j: int|
                        #![trigger x@[j]]
                        0 <= j < i ==> (x@[j].0@ == y@[j].0@ && jv(x@[j].1) == jv(y@[j].1)),
                decreases x@.len() - i,
            {
                if !str_eq(x[i].0.as_str(), y[i].0.as_str()) {
                    proof {
                        assert(jv(*a)->Obj_0[i as int].0 != jv(*b)->Obj_0[i as int].0);
                    }
                    return false;
                }
                proof {
                    assert(decreases_to!(*a => *x));
                    assert(decreases_to!(*x => x@));
                    assert(decreases_to!(x@ => x@[i as int]));
                    assert(decreases_to!(x@[i as int] => x@[i as int].1));
                }
                if !json_eq(&x[i].1, &y[i].1) {
                    proof {
                        assert(jv(*a)->Obj_0[i as int].1 != jv(*b)->Obj_0[i as int].1);
                    }
                    return false;
                }
                i += 1;
            }
            proof {
                assert(jv(*a)->Obj_0 =~= jv(*b)->Obj_0);
            }
            true
        },
        _ => {
            proof {
                assert(jv(*a) != jv(*b));
            }
            false
        },
    }
}

/// A copy of a value, equal at the level of abstractions.
pub fn deep_clone(a: &Json) -> (r: Json)
    ensures
        jv(r) == jv(*a),
    decreases *a,
{
    match a {
        Json::Null => Json::Null,
        Json::Bool(x) => Json::Bool(*x),
        Json::Num(x) => Json::Num(*x),
        Json::Str(x) => Json::Str(x.clone()),
        Json::Arr(x) => {
            let mut out: Vec<Json> = Vec::new();
            let mut i: usize = 0;
            while i < x.len()
                invariant
                    0 <= i <= x@.len(),
                    a == Json::Arr(*x),
                    out@.len() == i,
                    forall|j: int| 0 <= j < i ==> jv(out@[j]) == jv(x@[j]),
                decreases x@.len() - i,
            {
                proof {
                    assert(decreases_to!(*a => (*a)->Arr_0));
                    assert((*a)->Arr_0 == *x);
                    assert(decreases_to!(*x => x@));
                    assert(decreases_to!(x@ => x@[i as int]));
                }
                let e = deep_clone(&x[i]);
                out.push(e);
                i += 1;
            }
            proof {
                assert(jv(Json::Arr(out))->Arr_0 =~= jv(*a)->Arr_0);
            }
            Json::Arr(out)
        },
        Json::Obj(x) => {
            let mut out: Vec<(String, Json)> = Vec::new();
            let mut i: usize = 0;
            while i < x.len()
                invariant
                    0 <= i <= x@.len(),
                    a == Json::Obj(*x),
                    out@.len() == i,
                    forall|j: int|
                        #![trigger out@[j]]
                        0 <= j < i ==> (out@[j].0@ == x@[j].0@ && jv(out@[j].1) == jv(x@[j].1)),
                decreases x@.len() - i,
            {
                let key = x[i].0.clone();
                proof {
                    assert(decreases_to!(*a => (*a)->Obj_0));
                    assert((*a)->Obj_0 == *x);
                    assert(decreases_to!(*x => x@));
                    assert(decreases_to!(x@ => x@[i as int]));
                    assert(decreases_to!(x@[i as int] => x@[i as int].1));
                }
                let e = deep_clone(&x[i].1);
                out.push((key, e));
                i += 1;
            }
            proof {
                assert(jv(Json::Obj(out))->Obj_0 =~= jv(*a)->Obj_0);
            }
            Json::Obj(out)
        },
    }
}

/// A copy of the first `n` elements of an array.
pub fn clone_prefix(a: &Vec<Json>, n: usize) -> (r: Vec<Json>)
    requires
        n <= a@.len(),
    ensures
        avs(r@) == avs(a@).take(n as int),
{
    let mut out: Vec<Json> = Vec::new();
    let mut i: usize = 0;
    while i < n
        invariant
            0 <= i <= n <= a@.len(),
            out@.len() == i,
            forall|j: int| 0 <= j < i ==> jv(out@[j]) == jv(a@[j]),
        decreases n - i,
    {
        let e = deep_clone(&a[i]);
        out.push(e);
        i += 1;
    }
    proof {
        assert(avs(out@) =~= avs(a@).take(n as int));
    }
    out
}

/// Takes the value out of a mutable place, leaving `Null` behind.
pub fn take_json(s: &mut Json) -> (r: Json)
    ensures
        r == *old(s),
        *final(s) == Json::Null,
{
    let mut t = Json::Null;
    core::mem::swap(s, &mut t);
    t
}

} // verus!
