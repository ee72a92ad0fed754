//! The two-schema intersection: merges the constraints of a right-hand
//! schema into a left-hand one, keyword by keyword.

use crate::helpers::types::{spec_types_of_type_value, PrimitiveTypesBitMap};
use crate::helpers::{is_false_schema, is_true_schema, spec_is_false_schema, spec_is_true_schema,
    spec_type_with, type_with};
use crate::json::{avs, deep_clone, json_eq, jv, kvs, lemma_jv_arr, lemma_jv_obj, obj_get, obj_set,
    okv_get, okv_set, str_eq, Json, JsonV, Number};
use crate::num::{num_lt, num_lt_exec};
use vstd::prelude::*;

verus! {

/// The outcome of an intersection: whether every constraint of the
/// right-hand schema was absorbed, and whether the left-hand schema changed.
#[derive(Clone, Copy, Debug, PartialEq, Eq, Structural)]
pub struct IntersectStatus {
    /// Every right-hand constraint was absorbed; the right-hand schema may
    /// be dropped.
    pub complete: bool,
    /// The left-hand schema differs from its pre-call value.
    pub updated_schema: bool,
}

impl IntersectStatus {
    /// Whether the left-hand schema was changed by the intersection.
    pub fn is_schema_updated(&self) -> (r: bool)
        ensures
            r == self.updated_schema,
    {
        self.updated_schema
    }
}

/// The elements of `xs` with later duplicates dropped, keeping first
/// occurrences in order.
pub open spec fn spec_dedup(xs: Seq<JsonV>) -> Seq<JsonV>
    decreases xs.len(),
{
    if xs.len() == 0 {
        xs
    } else {
        let p = spec_dedup(xs.drop_last());
        if p.contains(xs.last()) {
            p
        } else {
            p.push(xs.last())
        }
    }
}

/// The concatenation of the two lists with duplicates dropped.
pub open spec fn spec_join_dedup(la: Seq<JsonV>, ra: Seq<JsonV>) -> Seq<JsonV> {
    spec_dedup(la + ra)
}

/// The elements of `la` that also occur in `ra`, first occurrences only.
pub open spec fn spec_common_dedup(la: Seq<JsonV>, ra: Seq<JsonV>) -> Seq<JsonV>
    decreases la.len(),
{
    if la.len() == 0 {
        la
    } else {
        let p = spec_common_dedup(la.drop_last(), ra);
        if ra.contains(la.last()) && !p.contains(la.last()) {
            p.push(la.last())
        } else {
            p
        }
    }
}

/// Whether an element with the same abstraction occurs in the array.
pub fn arr_contains(v: &Vec<Json>, x: &Json) -> (r: bool)
    ensures
        r == avs(v@).contains(x@),
{
    let mut i: usize = 0;
    while i < v.len()
        invariant
            0 <= i <= v@.len(),
            forall|j: int| 0 <= j < i ==> jv(v@[j]) != jv(*x),
        decreases v@.len() - i,
    {
        if json_eq(&v[i], x) {
            proof {
                assert(avs(v@)[i as int] == jv(*x));
            }
            return true;
        }
        i += 1;
    }
    proof {
        assert forall|j: int| 0 <= j < avs(v@).len() implies avs(v@)[j] != jv(*x) by {
            assert(avs(v@)[j] == jv(v@[j]));
        }
    }
    false
}

/// Appends the elements of `src` (a sequence slice of abstractions backed by
/// the array) that are not yet present, walking `src` in order.
fn dedup_push_all(out: &mut Vec<Json>, src: &Vec<Json>)
    ensures
        avs(final(out)@) == spec_dedup_into(avs(old(out)@), avs(src@)),
{
    let mut i: usize = 0;
    while i < src.len()
        invariant
            0 <= i <= src@.len(),
            avs(out@) == spec_dedup_into(avs(old(out)@), avs(src@).take(i as int)),
        decreases src@.len() - i,
    {
        proof {
            assert(avs(src@).take(i + 1).drop_last() =~= avs(src@).take(i as int));
            assert(avs(src@).take(i + 1).last() == jv(src@[i as int]));
        }
        if !arr_contains(out, &src[i]) {
            let e = deep_clone(&src[i]);
            out.push(e);
            proof {
                assert(avs(out@) =~= spec_dedup_into(avs(old(out)@), avs(src@).take(i as int)).push(
                    jv(src@[i as int]),
                ));
            }
        }
        i += 1;
    }
    proof {
        assert(avs(src@).take(src@.len() as int) =~= avs(src@));
    }
}

/// `acc` extended with the elements of `xs` that are not yet present,
/// walking `xs` in order.
pub open spec fn spec_dedup_into(acc: Seq<JsonV>, xs: Seq<JsonV>) -> Seq<JsonV>
    decreases xs.len(),
{
    if xs.len() == 0 {
        acc
    } else {
        let p = spec_dedup_into(acc, xs.drop_last());
        if p.contains(xs.last()) {
            p
        } else {
            p.push(xs.last())
        }
    }
}

/// `spec_dedup_into` from an empty accumulator over a concatenation is the
/// plain deduplication of the concatenation.
pub proof fn lemma_dedup_into_empty(xs: Seq<JsonV>)
    ensures
        spec_dedup_into(Seq::<JsonV>::empty(), xs) == spec_dedup(xs),
    decreases xs.len(),
{
    if xs.len() > 0 {
        lemma_dedup_into_empty(xs.drop_last());
    }
}

/// Splitting `spec_dedup_into` at a concatenation.
pub proof fn lemma_dedup_into_add(acc: Seq<JsonV>, xs: Seq<JsonV>, ys: Seq<JsonV>)
    ensures
        spec_dedup_into(acc, xs + ys) == spec_dedup_into(spec_dedup_into(acc, xs), ys),
    decreases ys.len(),
{
    if ys.len() == 0 {
        assert(xs + ys =~= xs);
    } else {
        lemma_dedup_into_add(acc, xs, ys.drop_last());
        assert((xs + ys).drop_last() =~= xs + ys.drop_last());
        assert((xs + ys).last() == ys.last());
    }
}

/// The concatenation of the two lists with duplicates dropped, keeping
/// first occurrences in `la`'s order.
pub fn join_and_deduplicate(la: &Vec<Json>, ra: &Vec<Json>) -> (r: Vec<Json>)
    ensures
        avs(r@) == spec_join_dedup(avs(la@), avs(ra@)),
{
    let mut out: Vec<Json> = Vec::new();
    proof {
        assert(avs(out@) =~= Seq::<JsonV>::empty());
    }
    dedup_push_all(&mut out, la);
    dedup_push_all(&mut out, ra);
    proof {
        lemma_dedup_into_add(Seq::<JsonV>::empty(), avs(la@), avs(ra@));
        lemma_dedup_into_empty(avs(la@) + avs(ra@));
    }
    out
}

/// The elements of `la` that also occur in `ra`, deduplicated, in `la`'s
/// order.
pub fn common_values_and_deduplicate(la: &Vec<Json>, ra: &Vec<Json>) -> (r: Vec<Json>)
    ensures
        avs(r@) == spec_common_dedup(avs(la@), avs(ra@)),
{
    let mut out: Vec<Json> = Vec::new();
    proof {
        assert(avs(la@).take(0) =~= Seq::<JsonV>::empty());
        assert(avs(out@) =~= spec_common_dedup(avs(la@).take(0), avs(ra@)));
    }
    let mut i: usize = 0;
    while i < la.len()
        invariant
            0 <= i <= la@.len(),
            avs(out@) == spec_common_dedup(avs(la@).take(i as int), avs(ra@)),
        decreases la@.len() - i,
    {
        proof {
            assert(avs(la@).take(i + 1).drop_last() =~= avs(la@).take(i as int));
            assert(avs(la@).take(i + 1).last() == jv(la@[i as int]));
        }
        if arr_contains(ra, &la[i]) && !arr_contains(&out, &la[i]) {
            let e = deep_clone(&la[i]);
            out.push(e);
            proof {
                assert(avs(out@) =~= spec_common_dedup(avs(la@).take(i as int), avs(ra@)).push(
                    jv(la@[i as int]),
                ));
            }
        }
        i += 1;
    }
    proof {
        assert(avs(la@).take(la@.len() as int) =~= avs(la@));
    }
    out
}

/// How one right-hand entry merges into the left-hand entries: the new
/// entries, whether the whole schema collapses to the rejecting schema,
/// whether the entry was absorbed, and whether the entries changed.
pub open spec fn spec_merge_entry(
    lo: Seq<(Seq<char>, JsonV)>,
    k: Seq<char>,
    rv: JsonV,
) -> (Seq<(Seq<char>, JsonV)>, bool, bool, bool)
    decreases rv, 0int, 1int,
{
    match okv_get(lo, k) {
        None => (okv_set(lo, k, rv), false, true, true),
        Some(lv) => {
            if lv == rv {
                (lo, false, true, false)
            } else if k == "allOf"@ || k == "required"@ {
                match (lv, rv) {
                    (JsonV::Arr(la), JsonV::Arr(ra)) => {
                        let j = spec_join_dedup(la, ra);
                        (okv_set(lo, k, JsonV::Arr(j)), false, true, j != la)
                    },
                    _ => (lo, false, true, false),
                }
            } else if k == "const"@ || k == "contentEncoding"@ || k == "contentMediaType"@ || k
                == "format"@ {
                (lo, true, true, true)
            } else if k == "contains"@ || k == "propertyNames"@ {
                let t = spec_intersection(lv, rv);
                (okv_set(lo, k, t.0), false, t.1, t.2)
            } else if k == "enum"@ {
                match (lv, rv) {
                    (JsonV::Arr(la), JsonV::Arr(ra)) => {
                        let c = spec_common_dedup(la, ra);
                        if c.len() == 0 {
                            (lo, true, true, true)
                        } else {
                            (okv_set(lo, k, JsonV::Arr(c)), false, true, c != la)
                        }
                    },
                    _ => (lo, false, true, false),
                }
            } else if k == "exclusiveMaximum"@ || k == "maxItems"@ || k == "maxLength"@ || k
                == "maxProperties"@ || k == "maximum"@ {
                match (lv, rv) {
                    (JsonV::Num(a), JsonV::Num(b)) => if num_lt(b, a) {
                        (okv_set(lo, k, rv), false, true, true)
                    } else {
                        (lo, false, true, false)
                    },
                    _ => (lo, false, true, false),
                }
            } else if k == "exclusiveMinimum"@ || k == "minItems"@ || k == "minLength"@ || k
                == "minProperties"@ || k == "minimum"@ {
                match (lv, rv) {
                    (JsonV::Num(a), JsonV::Num(b)) => if num_lt(a, b) {
                        (okv_set(lo, k, rv), false, true, true)
                    } else {
                        (lo, false, true, false)
                    },
                    _ => (lo, false, true, false),
                }
            } else if k == "type"@ {
                let bl = spec_types_of_type_value(Some(lv));
                let br = spec_types_of_type_value(Some(rv));
                let it = bl.spec_intersect(br);
                if it.spec_is_empty() {
                    (lo, true, true, true)
                } else if it == bl {
                    (lo, false, true, false)
                } else {
                    (spec_type_with(lo, it), false, true, true)
                }
            } else if k == "uniqueItems"@ {
                if rv == JsonV::Bool(true) {
                    (okv_set(lo, k, JsonV::Bool(true)), false, true, true)
                } else {
                    (lo, false, true, false)
                }
            } else {
                (lo, false, false, false)
            }
        },
    }
}

/// Merges the right-hand entries from position `i` on into the left-hand
/// entries, carrying the completeness and change accumulators.
pub open spec fn spec_merge_from(
    lo: Seq<(Seq<char>, JsonV)>,
    ro: Seq<(Seq<char>, JsonV)>,
    i: int,
    complete: bool,
    changed: bool,
) -> (JsonV, bool, bool)
    decreases ro, 1int, ro.len() - i,
{
    if i < 0 || i >= ro.len() {
        (JsonV::Obj(lo), complete, changed)
    } else {
        let e = spec_merge_entry(lo, ro[i].0, ro[i].1);
        if e.1 {
            (JsonV::Bool(false), true, true)
        } else {
            spec_merge_from(e.0, ro, i + 1, complete && e.2, changed || e.3)
        }
    }
}

/// The intersection of two schemas: the merged schema, whether every
/// right-hand constraint was absorbed, and whether the left-hand value
/// changed.  A rejecting right side rejects everything; an accepting right
/// side — the boolean `true` or an object with no keys — or a non-schema
/// right side changes nothing; an accepting left side becomes the right
/// side; a rejecting or non-schema left side stays.
pub open spec fn spec_intersection(l: JsonV, r: JsonV) -> (JsonV, bool, bool)
    decreases r, 0int, 0int,
{
    if spec_is_false_schema(r) {
        (JsonV::Bool(false), true, l != JsonV::Bool(false))
    } else if spec_is_true_schema(r) {
        (l, true, false)
    } else {
        match r {
            JsonV::Obj(ro) => match l {
                JsonV::Obj(lo) => spec_merge_from(lo, ro, 0, true, false),
                JsonV::Bool(lb) => if lb {
                    (r, true, true)
                } else {
                    (l, true, false)
                },
                _ => (l, true, false),
            },
            _ => (l, true, false),
        }
    }
}

/// Merges the constraints of `other` into `schema`.  The status says
/// whether every constraint of `other` was absorbed — only then may the
/// caller drop `other` — and whether `schema` changed.
pub fn intersection_schema(schema: Json, other: &Json) -> (r: (Json, IntersectStatus))
    ensures
        r.0@ == spec_intersection(schema@, other@).0,
        r.1.complete == spec_intersection(schema@, other@).1,
        r.1.updated_schema == spec_intersection(schema@, other@).2,
    decreases *other,
{
    if is_false_schema(other) {
        let was_false = match &schema {
            Json::Bool(b) => !*b,
            _ => false,
        };
        return (Json::Bool(false), IntersectStatus { complete: true, updated_schema: !was_false });
    }
    if is_true_schema(other) {
        return (schema, IntersectStatus { complete: true, updated_schema: false });
    }
    match other {
        Json::Obj(ro) => {
            proof {
                lemma_jv_obj(*ro);
            }
            match schema {
                Json::Obj(mut lo) => {
                    proof {
                        lemma_jv_obj(lo);
                    }
                    let ghost rk = kvs(ro@);
                    let ghost goal = spec_merge_from(kvs(lo@), rk, 0, true, false);
                    proof {
                        assert(spec_intersection(schema@, other@) == goal);
                    }
                    let mut complete = true;
                    let mut changed = false;
                    let mut i: usize = 0;
                    while i < ro.len()
                        invariant
                            0 <= i <= ro@.len(),
                            rk == kvs(ro@),
                            other == Json::Obj(*ro),
                            goal == spec_merge_from(kvs(lo@), rk, i as int, complete, changed),
                            goal == spec_intersection(schema@, other@),
                        decreases ro@.len() - i,
                    {
                        let ghost lo_pre = kvs(lo@);
                        let ghost c_pre = complete;
                        let ghost ch_pre = changed;
                        proof {
                            assert(rk[i as int] == (ro@[i as int].0@, jv(ro@[i as int].1)));
                        }
                        let kstr: &str = ro[i].0.as_str();
                        let rv: &Json = &ro[i].1;
                        let present_eq: Option<bool> = match obj_get(&lo, kstr) {
                            Some(lv) => Some(json_eq(lv, rv)),
                            None => None,
                        };
                        match present_eq {
                            None => {
                                let c = deep_clone(rv);
                                obj_set(&mut lo, kstr, c);
                                changed = true;
                            },
                            Some(true) => (),
                            Some(false) => {
                                if str_eq(kstr, "allOf") || str_eq(kstr, "required") {
                                    let la_opt: Option<Vec<Json>> = match obj_get(&lo, kstr) {
                                        Some(lv) => match deep_clone(lv) {
                                            Json::Arr(x) => Some(x),
                                            _ => None,
                                        },
                                        None => None,
                                    };
                                    match (la_opt, rv) {
                                        (Some(la), Json::Arr(ra)) => {
                                            proof {
                                                lemma_jv_arr(la);
                                                lemma_jv_arr(*ra);
                                            }
                                            let joined = join_and_deduplicate(&la, ra);
                                            let newv = Json::Arr(joined);
                                            let la_json = Json::Arr(la);
                                            proof {
                                                lemma_jv_arr(newv->Arr_0);
                                                lemma_jv_arr(la_json->Arr_0);
                                            }
                                            let changed_here = !json_eq(&newv, &la_json);
                                            obj_set(&mut lo, kstr, newv);
                                            changed = changed || changed_here;
                                        },
                                        _ => (),
                                    }
                                } else if str_eq(kstr, "const") || str_eq(kstr, "contentEncoding")
                                    || str_eq(kstr, "contentMediaType") || str_eq(
                                    kstr,
                                    "format",
                                ) {
                                    proof {
                                        let kk = rk[i as int].0;
                                        assert(kk == kstr@);
                                        assert(okv_get(lo_pre, kk) is Some);
                                        assert(spec_merge_entry(lo_pre, kk, rk[i as int].1).1
                                            == true);
                                        assert(spec_merge_from(
                                            lo_pre,
                                            rk,
                                            i as int,
                                            complete,
                                            changed,
                                        ) == (JsonV::Bool(false), true, true));
                                    }
                                    return (
                                        Json::Bool(false),
                                        IntersectStatus { complete: true, updated_schema: true },
                                    );
                                } else if str_eq(kstr, "contains") || str_eq(
                                    kstr,
                                    "propertyNames",
                                ) {
                                    let lv_clone: Json = match obj_get(&lo, kstr) {
                                        Some(lv) => deep_clone(lv),
                                        None => Json::Null,
                                    };
                                    proof {
                                        assert(decreases_to!(*other => (*other)->Obj_0));
                                        assert((*other)->Obj_0 == *ro);
                                        assert(decreases_to!(*ro => ro@));
                                        assert(decreases_to!(ro@ => ro@[i as int]));
                                        assert(decreases_to!(ro@[i as int] => ro@[i as int].1));
                                    }
                                    let (nv, st) = intersection_schema(lv_clone, rv);
                                    obj_set(&mut lo, kstr, nv);
                                    complete = complete && st.complete;
                                    changed = changed || st.updated_schema;
                                } else if str_eq(kstr, "enum") {
                                    let la_opt: Option<Vec<Json>> = match obj_get(&lo, kstr) {
                                        Some(lv) => match deep_clone(lv) {
                                            Json::Arr(x) => Some(x),
                                            _ => None,
                                        },
                                        None => None,
                                    };
                                    match (la_opt, rv) {
                                        (Some(la), Json::Arr(ra)) => {
                                            proof {
                                                lemma_jv_arr(la);
                                                lemma_jv_arr(*ra);
                                            }
                                            let inter = common_values_and_deduplicate(&la, ra);
                                            if inter.len() == 0 {
                                                proof {
                                                    let kk = rk[i as int].0;
                                                    assert(kk == kstr@);
                                                    assert(okv_get(lo_pre, kk) is Some);
                                                    assert(spec_merge_entry(
                                                        lo_pre,
                                                        kk,
                                                        rk[i as int].1,
                                                    ).1 == true);
                                                    assert(spec_merge_from(
                                                        lo_pre,
                                                        rk,
                                                        i as int,
                                                        complete,
                                                        changed,
                                                    ) == (JsonV::Bool(false), true, true));
                                                }
                                                return (
                                                    Json::Bool(false),
                                                    IntersectStatus {
                                                        complete: true,
                                                        updated_schema: true,
                                                    },
                                                );
                                            }
                                            let newv = Json::Arr(inter);
                                            let la_json = Json::Arr(la);
                                            proof {
                                                lemma_jv_arr(newv->Arr_0);
                                                lemma_jv_arr(la_json->Arr_0);
                                            }
                                            let changed_here = !json_eq(&newv, &la_json);
                                            obj_set(&mut lo, kstr, newv);
                                            changed = changed || changed_here;
                                        },
                                        _ => (),
                                    }
                                } else if str_eq(kstr, "exclusiveMaximum") || str_eq(
                                    kstr,
                                    "maxItems",
                                ) || str_eq(kstr, "maxLength") || str_eq(kstr, "maxProperties")
                                    || str_eq(kstr, "maximum") {
                                    let ln: Option<Number> = match obj_get(&lo, kstr) {
                                        Some(Json::Num(n)) => Some(*n),
                                        _ => None,
                                    };
                                    match (ln, rv) {
                                        (Some(a), Json::Num(b)) => {
                                            if num_lt_exec(b, &a) {
                                                let c = deep_clone(rv);
                                                obj_set(&mut lo, kstr, c);
                                                changed = true;
                                            }
                                        },
                                        _ => (),
                                    }
                                } else if str_eq(kstr, "exclusiveMinimum") || str_eq(
                                    kstr,
                                    "minItems",
                                ) || str_eq(kstr, "minLength") || str_eq(kstr, "minProperties")
                                    || str_eq(kstr, "minimum") {
                                    let ln: Option<Number> = match obj_get(&lo, kstr) {
                                        Some(Json::Num(n)) => Some(*n),
                                        _ => None,
                                    };
                                    match (ln, rv) {
                                        (Some(a), Json::Num(b)) => {
                                            if num_lt_exec(&a, b) {
                                                let c = deep_clone(rv);
                                                obj_set(&mut lo, kstr, c);
                                                changed = true;
                                            }
                                        },
                                        _ => (),
                                    }
                                } else if str_eq(kstr, "type") {
                                    let bl = PrimitiveTypesBitMap::from_schema_value(
                                        obj_get(&lo, kstr),
                                    );
                                    let br = PrimitiveTypesBitMap::from_schema_value(Some(rv));
                                    let it = bl.intersect(br);
                                    if it.is_empty() {
                                        proof {
                                            let kk = rk[i as int].0;
                                            assert(kk == kstr@);
                                            assert(okv_get(lo_pre, kk) is Some);
                                            assert(spec_merge_entry(lo_pre, kk, rk[i as int].1).1
                                                == true);
                                            assert(spec_merge_from(
                                                lo_pre,
                                                rk,
                                                i as int,
                                                complete,
                                                changed,
                                            ) == (JsonV::Bool(false), true, true));
                                        }
                                        return (
                                            Json::Bool(false),
                                            IntersectStatus {
                                                complete: true,
                                                updated_schema: true,
                                            },
                                        );
                                    } else if it == bl {
                                    } else {
                                        type_with(&mut lo, it);
                                        changed = true;
                                    }
                                } else if str_eq(kstr, "uniqueItems") {
                                    let r_true = match rv {
                                        Json::Bool(b) => *b,
                                        _ => false,
                                    };
                                    if r_true {
                                        obj_set(&mut lo, kstr, Json::Bool(true));
                                        changed = true;
                                    }
                                } else {
                                    complete = false;
                                }
                            },
                        }
                        proof {
                            let kk = rk[i as int].0;
                            let e = spec_merge_entry(lo_pre, kk, rk[i as int].1);
                            assert(kk == kstr@);
                            assert(e.1 == false);
                            assert(kvs(lo@) == e.0);
                            assert(complete == (c_pre && e.2));
                            assert(changed == (ch_pre || e.3));
                            assert(spec_merge_from(lo_pre, rk, i as int, c_pre, ch_pre)
                                == spec_merge_from(kvs(lo@), rk, i + 1, complete, changed));
                        }
                        i += 1;
                    }
                    let out = Json::Obj(lo);
                    proof {
                        lemma_jv_obj(out->Obj_0);
                    }
                    (out, IntersectStatus { complete, updated_schema: changed })
                },
                Json::Bool(lb) => {
                    if lb {
                        let c = deep_clone(other);
                        (c, IntersectStatus { complete: true, updated_schema: true })
                    } else {
                        (
                            Json::Bool(false),
                            IntersectStatus { complete: true, updated_schema: false },
                        )
                    }
                },
                other_l => (other_l, IntersectStatus { complete: true, updated_schema: false }),
            }
        },
        _ => (schema, IntersectStatus { complete: true, updated_schema: false }),
    }
}

} // verus!
