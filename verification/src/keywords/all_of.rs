//! The `allOf` keyword: accepting arms are dropped, a rejecting arm rejects
//! the whole schema, the arms' types are narrowed to their common types,
//! and arms whose constraints the outer schema fully absorbs are removed.

use crate::helpers::intersect::{intersection_schema, spec_intersection, IntersectStatus};
use crate::helpers::types::{spec_types_of_type_value, PrimitiveTypesBitMap};
use crate::helpers::{is_false_schema, is_true_schema, spec_is_false_schema, spec_is_true_schema,
    spec_type_with, type_with};
use crate::json::{avs, clone_prefix, deep_clone, json_eq, jv, kvs, lemma_jv_arr, lemma_jv_obj,
    obj_get, obj_has, obj_remove, obj_set, okv_get, okv_has, okv_remove, okv_set, Json, JsonV};
use vstd::prelude::*;

verus! {

/// The types an `allOf` arm declares; anything without a `type` keyword
/// declares all seven.
pub open spec fn spec_arm_types(a: JsonV) -> PrimitiveTypesBitMap {
    match a {
        JsonV::Obj(ao) => spec_types_of_type_value(okv_get(ao, "type"@)),
        _ => PrimitiveTypesBitMap::spec_all(),
    }
}

/// The common types of the outer schema and all arms.
pub open spec fn spec_common_types(b: PrimitiveTypesBitMap, arms: Seq<JsonV>) -> PrimitiveTypesBitMap
    decreases arms.len(),
{
    if arms.len() == 0 {
        b
    } else {
        spec_common_types(b, arms.drop_last()).spec_intersect(spec_arm_types(arms.last()))
    }
}

/// An arm with its `type` rewritten to the common types, when it differs.
pub open spec fn spec_retype_arm(a: JsonV, common: PrimitiveTypesBitMap) -> JsonV {
    if spec_arm_types(a) != common {
        match a {
            JsonV::Obj(ao) => JsonV::Obj(spec_type_with(ao, common)),
            _ => a,
        }
    } else {
        a
    }
}

/// All arms with their `type` rewritten to the common types.
pub open spec fn spec_retype_arms(arms: Seq<JsonV>, common: PrimitiveTypesBitMap) -> Seq<JsonV> {
    Seq::new(arms.len(), |i: int| spec_retype_arm(arms[i], common))
}

/// Whether some arm is the rejecting schema.
pub open spec fn spec_has_false_arm(arms: Seq<JsonV>) -> bool {
    exists|i: int| 0 <= i < arms.len() && spec_is_false_schema(arms[i])
}

/// The schema after simplifying `allOf`: accepting arms are dropped — if
/// none survive the keyword goes away — a rejecting arm rejects the whole
/// schema, and otherwise the arms' `type` keywords are narrowed to the
/// common types, or everything is rejected when there are none.
pub open spec fn spec_simplify_all_of(s: JsonV) -> JsonV {
    match s {
        JsonV::Obj(m) => {
            let b_outer = spec_types_of_type_value(okv_get(m, "type"@));
            match okv_get(m, "allOf"@) {
                Some(JsonV::Arr(arms)) => {
                    let kept = arms.filter(|a: JsonV| !spec_is_true_schema(a));
                    if kept.len() == 0 {
                        if arms.len() > 0 {
                            JsonV::Obj(okv_remove(m, "allOf"@))
                        } else {
                            s
                        }
                    } else if spec_has_false_arm(kept) {
                        JsonV::Bool(false)
                    } else {
                        let common = spec_common_types(b_outer, kept);
                        if common.spec_is_empty() {
                            JsonV::Bool(false)
                        } else {
                            JsonV::Obj(
                                okv_set(m, "allOf"@, JsonV::Arr(spec_retype_arms(kept, common))),
                            )
                        }
                    }
                },
                _ => s,
            }
        },
        _ => s,
    }
}

/// The types an arm declares.
fn arm_types(a: &Json) -> (r: PrimitiveTypesBitMap)
    ensures
        r == spec_arm_types(a@),
{
    match a {
        Json::Obj(ao) => {
            proof {
                lemma_jv_obj(*ao);
            }
            PrimitiveTypesBitMap::from_schema_value(obj_get(ao, "type"))
        },
        _ => PrimitiveTypesBitMap::all(),
    }
}

/// Simplifies `allOf`, and reports whether the schema changed.
pub fn simplify_all_of(schema: Json) -> (r: (Json, bool))
    ensures
        r.0@ == spec_simplify_all_of(schema@),
        r.1 == (r.0@ != schema@),
{
    let snap = deep_clone(&schema);
    match schema {
        Json::Obj(mut m) => {
            proof {
                lemma_jv_obj(m);
            }
            let b_outer = PrimitiveTypesBitMap::from_schema_value(obj_get(&m, "type"));
            let work: Option<(Vec<Json>, usize)> = match obj_get(&m, "allOf") {
                Some(Json::Arr(arms)) => {
                    let ghost av = avs(arms@);
                    proof {
                        lemma_jv_arr(*arms);
                    }
                    let mut kept: Vec<Json> = Vec::new();
                    proof {
                        reveal(Seq::filter);
                        assert(av.take(0) =~= Seq::<JsonV>::empty());
                        assert(avs(kept@) =~= av.take(0).filter(
                            |a: JsonV| !spec_is_true_schema(a),
                        ));
                    }
                    let mut i: usize = 0;
                    while i < arms.len()
                        invariant
                            0 <= i <= arms@.len(),
                            av == avs(arms@),
                            avs(kept@) == av.take(i as int).filter(
                                |a: JsonV| !spec_is_true_schema(a),
                            ),
                        decreases arms@.len() - i,
                    {
                        proof {
                            reveal(Seq::filter);
                            assert(av.take(i + 1).drop_last() =~= av.take(i as int));
                            assert(av.take(i + 1).last() == jv(arms@[i as int]));
                        }
                        if !is_true_schema(&arms[i]) {
                            let e = deep_clone(&arms[i]);
                            kept.push(e);
                            proof {
                                assert(avs(kept@) =~= av.take(i as int).filter(
                                    |a: JsonV| !spec_is_true_schema(a),
                                ).push(jv(arms@[i as int])));
                            }
                        }
                        i += 1;
                    }
                    proof {
                        assert(av.take(arms@.len() as int) =~= av);
                    }
                    Some((kept, arms.len()))
                },
                _ => None,
            };
            match work {
                None => {
                    let out = Json::Obj(m);
                    proof {
                        lemma_jv_obj(out->Obj_0);
                    }
                    (out, false)
                },
                Some((kept, n_arms)) => {
                    if kept.len() == 0 {
                        if n_arms > 0 {
                            let _ = obj_remove(&mut m, "allOf");
                            let out = Json::Obj(m);
                            proof {
                                lemma_jv_obj(out->Obj_0);
                            }
                            let changed = !json_eq(&out, &snap);
                            (out, changed)
                        } else {
                            let out = Json::Obj(m);
                            proof {
                                lemma_jv_obj(out->Obj_0);
                            }
                            (out, false)
                        }
                    } else {
                        let mut has_false = false;
                        let mut i: usize = 0;
                        while i < kept.len()
                            invariant
                                0 <= i <= kept@.len(),
                                has_false == exists|j: int|
                                    0 <= j < i && spec_is_false_schema(jv(kept@[j])),
                            decreases kept@.len() - i,
                        {
                            if is_false_schema(&kept[i]) {
                                has_false = true;
                            }
                            i += 1;
                        }
                        proof {
                            if has_false {
                                let j = choose|j: int|
                                    0 <= j < kept@.len() && spec_is_false_schema(jv(kept@[j]));
                                assert(avs(kept@)[j] == jv(kept@[j]));
                                assert(spec_has_false_arm(avs(kept@)));
                            } else {
                                assert forall|j: int|
                                    0 <= j < avs(kept@).len() implies !spec_is_false_schema(
                                    avs(kept@)[j],
                                ) by {
                                    assert(avs(kept@)[j] == jv(kept@[j]));
                                }
                            }
                        }
                        if has_false {
                            let out = Json::Bool(false);
                            let changed = !json_eq(&out, &snap);
                            return (out, changed);
                        }
                        let mut common = b_outer;
                        proof {
                            assert(avs(kept@).take(0) =~= Seq::<JsonV>::empty());
                        }
                        let mut i: usize = 0;
                        while i < kept.len()
                            invariant
                                0 <= i <= kept@.len(),
                                common == spec_common_types(b_outer, avs(kept@).take(i as int)),
                            decreases kept@.len() - i,
                        {
                            proof {
                                assert(avs(kept@).take(i + 1).drop_last() =~= avs(kept@).take(
                                    i as int,
                                ));
                                assert(avs(kept@).take(i + 1).last() == jv(kept@[i as int]));
                            }
                            common = common.intersect(arm_types(&kept[i]));
                            i += 1;
                        }
                        proof {
                            assert(avs(kept@).take(kept@.len() as int) =~= avs(kept@));
                        }
                        if common.is_empty() {
                            let out = Json::Bool(false);
                            let changed = !json_eq(&out, &snap);
                            return (out, changed);
                        }
                        let mut retyped: Vec<Json> = Vec::new();
                        let ghost keptv = avs(kept@);
                        let mut i: usize = 0;
                        while i < kept.len()
                            invariant
                                0 <= i <= kept@.len(),
                                keptv == avs(kept@),
                                retyped@.len() == i,
                                forall|j: int|
                                    0 <= j < i ==> jv(retyped@[j]) == spec_retype_arm(
                                        keptv[j],
                                        common,
                                    ),
                        decreases kept@.len() - i,
                        {
                            proof {
                                assert(keptv[i as int] == jv(kept@[i as int]));
                            }
                            let at = arm_types(&kept[i]);
                            if at != common {
                                let c = deep_clone(&kept[i]);
                                match c {
                                    Json::Obj(mut ao) => {
                                        proof {
                                            lemma_jv_obj(ao);
                                        }
                                        type_with(&mut ao, common);
                                        let na = Json::Obj(ao);
                                        proof {
                                            lemma_jv_obj(na->Obj_0);
                                        }
                                        retyped.push(na);
                                    },
                                    other => {
                                        retyped.push(other);
                                    },
                                }
                            } else {
                                let c = deep_clone(&kept[i]);
                                retyped.push(c);
                            }
                            i += 1;
                        }
                        proof {
                            lemma_jv_arr(retyped);
                            assert(avs(retyped@) =~= spec_retype_arms(keptv, common));
                        }
                        obj_set(&mut m, "allOf", Json::Arr(retyped));
                        let out = Json::Obj(m);
                        proof {
                            lemma_jv_obj(out->Obj_0);
                        }
                        let changed = !json_eq(&out, &snap);
                        (out, changed)
                    }
                },
            }
        },
        other => (other, false),
    }
}

/// Whether an arm itself carries an `allOf` keyword; such arms are not
/// absorbed, so that their nested arms are never lost.
pub open spec fn spec_arm_nested_all_of(a: JsonV) -> bool {
    match a {
        JsonV::Obj(ao) => okv_has(ao, "allOf"@),
        _ => false,
    }
}

/// One pass of absorbing arms into the outer schema: the outer value after
/// all intersections, and for each arm whether it must stay.
pub open spec fn spec_flatten_iter(cur: JsonV, arms: Seq<JsonV>, j: int) -> (JsonV, Seq<bool>)
    decreases arms.len() - j,
{
    if j < 0 || j >= arms.len() {
        (cur, Seq::<bool>::empty())
    } else if spec_arm_nested_all_of(arms[j]) {
        let rest = spec_flatten_iter(cur, arms, j + 1);
        (rest.0, seq![true] + rest.1)
    } else {
        let t = spec_intersection(cur, arms[j]);
        let rest = spec_flatten_iter(t.0, arms, j + 1);
        (rest.0, seq![!t.1] + rest.1)
    }
}

/// The arms whose flag is raised, in order.
pub open spec fn spec_keep_by_flags(arms: Seq<JsonV>, flags: Seq<bool>) -> Seq<JsonV>
    decreases arms.len(),
{
    if arms.len() == 0 || flags.len() == 0 {
        Seq::<JsonV>::empty()
    } else {
        let rest = spec_keep_by_flags(arms.drop_last(), flags.drop_last());
        if flags.last() {
            rest.push(arms.last())
        } else {
            rest
        }
    }
}

/// The schema after hoisting `allOf` arms into the outer schema: each arm
/// without a nested `allOf` is intersected into the outer schema; fully
/// absorbed arms are removed, and the keyword goes away once no arm is left.
pub open spec fn spec_flatten_all_of(s: JsonV) -> JsonV {
    match s {
        JsonV::Obj(m) => match okv_get(m, "allOf"@) {
            Some(JsonV::Arr(arms)) => {
                let m1 = okv_set(m, "allOf"@, JsonV::Arr(Seq::<JsonV>::empty()));
                let it = spec_flatten_iter(JsonV::Obj(m1), arms, 0);
                match it.0 {
                    JsonV::Obj(mo) => {
                        let kept = spec_keep_by_flags(arms, it.1);
                        if kept.len() == 0 {
                            JsonV::Obj(okv_remove(mo, "allOf"@))
                        } else {
                            JsonV::Obj(okv_set(mo, "allOf"@, JsonV::Arr(kept)))
                        }
                    },
                    other => other,
                }
            },
            _ => s,
        },
        _ => s,
    }
}

/// Hoists `allOf` arms into the outer schema, and reports whether the
/// schema changed.
pub fn flatten_all_of(schema: Json) -> (r: (Json, bool))
    ensures
        r.0@ == spec_flatten_all_of(schema@),
        r.1 == (r.0@ != schema@),
{
    let snap = deep_clone(&schema);
    match schema {
        Json::Obj(mut m) => {
            proof {
                lemma_jv_obj(m);
            }
            let arms: Option<Vec<Json>> = match obj_get(&m, "allOf") {
                Some(Json::Arr(a)) => {
                    proof {
                        lemma_jv_arr(*a);
                    }
                    let c = clone_prefix(a, a.len());
                    proof {
                        assert(avs(a@).take(a@.len() as int) =~= avs(a@));
                    }
                    Some(c)
                },
                _ => None,
            };
            match arms {
                None => {
                    let out = Json::Obj(m);
                    proof {
                        lemma_jv_obj(out->Obj_0);
                    }
                    (out, false)
                },
                Some(arms) => {
                    let ghost armsv = avs(arms@);
                    let placeholder: Vec<Json> = Vec::new();
                    proof {
                        lemma_jv_arr(placeholder);
                        assert(avs(placeholder@) =~= Seq::<JsonV>::empty());
                    }
                    obj_set(&mut m, "allOf", Json::Arr(placeholder));
                    let mut cur = Json::Obj(m);
                    proof {
                        lemma_jv_obj(cur->Obj_0);
                    }
                    let ghost goal = spec_flatten_iter(cur@, armsv, 0);
                    let mut keep: Vec<bool> = Vec::new();
                    let mut j: usize = 0;
                    while j < arms.len()
                        invariant
                            0 <= j <= arms@.len(),
                            armsv == avs(arms@),
                            keep@.len() == j,
                            goal.0 == spec_flatten_iter(cur@, armsv, j as int).0,
                            goal.1 == keep@ + spec_flatten_iter(cur@, armsv, j as int).1,
                        decreases arms@.len() - j,
                    {
                        proof {
                            assert(armsv[j as int] == jv(arms@[j as int]));
                        }
                        let nested = match &arms[j] {
                            Json::Obj(ao) => {
                                proof {
                                    lemma_jv_obj(*ao);
                                }
                                obj_has(ao, "allOf")
                            },
                            _ => false,
                        };
                        let ghost cur_pre = cur@;
                        let ghost keep_pre = keep@;
                        if nested {
                            keep.push(true);
                        } else {
                            let (c2, st) = intersection_schema(cur, &arms[j]);
                            cur = c2;
                            keep.push(!st.complete);
                        }
                        proof {
                            assert(keep@ =~= keep_pre.push(keep@[j as int]));
                            assert(keep_pre + spec_flatten_iter(cur_pre, armsv, j as int).1
                                =~= keep@ + spec_flatten_iter(cur@, armsv, j + 1).1);
                        }
                        j += 1;
                    }
                    proof {
                        assert(spec_flatten_iter(cur@, armsv, arms@.len() as int).1
                            =~= Seq::<bool>::empty());
                        assert(goal.1 =~= keep@);
                        assert(goal.0 == cur@);
                    }
                    match cur {
                        Json::Obj(mut mo) => {
                            proof {
                                lemma_jv_obj(mo);
                            }
                            let mut kept_arms: Vec<Json> = Vec::new();
                            proof {
                                assert(avs(kept_arms@) =~= spec_keep_by_flags(
                                    armsv.take(0),
                                    keep@.take(0),
                                ));
                            }
                            let mut j: usize = 0;
                            while j < arms.len()
                                invariant
                                    0 <= j <= arms@.len(),
                                    armsv == avs(arms@),
                                    keep@.len() == arms@.len(),
                                    avs(kept_arms@) == spec_keep_by_flags(
                                        armsv.take(j as int),
                                        keep@.take(j as int),
                                    ),
                                decreases arms@.len() - j,
                            {
                                proof {
                                    assert(armsv.take(j + 1).drop_last() =~= armsv.take(j as int));
                                    assert(keep@.take(j + 1).drop_last() =~= keep@.take(j as int));
                                    assert(armsv.take(j + 1).last() == jv(arms@[j as int]));
                                    assert(keep@.take(j + 1).last() == keep@[j as int]);
                                }
                                if keep[j] {
                                    let c = deep_clone(&arms[j]);
                                    kept_arms.push(c);
                                    proof {
                                        assert(avs(kept_arms@) =~= spec_keep_by_flags(
                                            armsv.take(j as int),
                                            keep@.take(j as int),
                                        ).push(jv(arms@[j as int])));
                                    }
                                }
                                j += 1;
                            }
                            proof {
                                assert(armsv.take(arms@.len() as int) =~= armsv);
                                assert(keep@.take(arms@.len() as int) =~= keep@);
                            }
                            if kept_arms.len() == 0 {
                                let _ = obj_remove(&mut mo, "allOf");
                                let out = Json::Obj(mo);
                                proof {
                                    lemma_jv_obj(out->Obj_0);
                                }
                                let changed = !json_eq(&out, &snap);
                                (out, changed)
                            } else {
                                proof {
                                    lemma_jv_arr(kept_arms);
                                }
                                obj_set(&mut mo, "allOf", Json::Arr(kept_arms));
                                let out = Json::Obj(mo);
                                proof {
                                    lemma_jv_obj(out->Obj_0);
                                }
                                let changed = !json_eq(&out, &snap);
                                (out, changed)
                            }
                        },
                        other => {
                            let changed = !json_eq(&other, &snap);
                            (other, changed)
                        },
                    }
                },
            }
        },
        other => (other, false),
    }
}

} // verus!
