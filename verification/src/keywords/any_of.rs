//! The `anyOf` keyword: rejecting arms and arms for types the schema cannot
//! admit are dropped; an accepting arm makes the whole keyword vacuous.

use crate::helpers::types::{spec_types_of_schema, spec_types_of_type_value, PrimitiveTypesBitMap};
use crate::helpers::{is_false_schema, is_true_schema, spec_is_false_schema, spec_is_true_schema};
use crate::json::{avs, deep_clone, json_eq, jv, kvs, lemma_jv_arr, lemma_jv_obj, obj_get,
    obj_remove, obj_set, okv_get, okv_remove, okv_set, Json, JsonV};
use vstd::prelude::*;

verus! {

/// Whether an `anyOf` arm can still accept something: it is not the
/// rejecting schema and its types meet the outer types.
pub open spec fn spec_any_of_arm_stays(b: PrimitiveTypesBitMap, a: JsonV) -> bool {
    !spec_is_false_schema(a) && !b.spec_intersect(spec_types_of_schema(a)).spec_is_empty()
}

/// The arms that stay, in order.
pub open spec fn spec_any_of_kept(b: PrimitiveTypesBitMap, arms: Seq<JsonV>) -> Seq<JsonV> {
    arms.filter(|a: JsonV| spec_any_of_arm_stays(b, a))
}

/// Whether some arm accepts everything.
pub open spec fn spec_has_true_arm(arms: Seq<JsonV>) -> bool {
    exists|i: int| 0 <= i < arms.len() && spec_is_true_schema(arms[i])
}

/// The schema after simplifying `anyOf`: with no arm left it rejects
/// everything, with an accepting arm the keyword goes away, otherwise the
/// dead arms are dropped.
pub open spec fn spec_simplify_any_of(s: JsonV) -> JsonV {
    match s {
        JsonV::Obj(m) => {
            let b = spec_types_of_type_value(okv_get(m, "type"@));
            match okv_get(m, "anyOf"@) {
                Some(JsonV::Arr(arms)) => {
                    let kept = spec_any_of_kept(b, arms);
                    if kept.len() == 0 {
                        if arms.len() > 0 {
                            JsonV::Bool(false)
                        } else {
                            s
                        }
                    } else if spec_has_true_arm(kept) {
                        JsonV::Obj(okv_remove(m, "anyOf"@))
                    } else if kept.len() == arms.len() {
                        s
                    } else {
                        JsonV::Obj(okv_set(m, "anyOf"@, JsonV::Arr(kept)))
                    }
                },
                _ => s,
            }
        },
        _ => s,
    }
}

/// Whether an `anyOf` arm can still accept something.
fn any_of_arm_stays(b: PrimitiveTypesBitMap, a: &Json) -> (r: bool)
    ensures
        r == spec_any_of_arm_stays(b, a@),
{
    !is_false_schema(a) && !b.intersect(PrimitiveTypesBitMap::from_schema(a)).is_empty()
}

/// Simplifies `anyOf`, and reports whether the schema changed.
pub fn simplify_any_of(schema: Json) -> (r: (Json, bool))
    ensures
        r.0@ == spec_simplify_any_of(schema@),
        r.1 == (r.0@ != schema@),
{
    let snap = deep_clone(&schema);
    match schema {
        Json::Obj(mut m) => {
            proof {
                lemma_jv_obj(m);
            }
            let b = PrimitiveTypesBitMap::from_schema_value(obj_get(&m, "type"));
            let kept_and_len: Option<(Vec<Json>, usize)> = match obj_get(&m, "anyOf") {
                Some(Json::Arr(arms)) => {
                    let ghost av = avs(arms@);
                    proof {
                        lemma_jv_arr(*arms);
                    }
                    let mut kept: Vec<Json> = Vec::new();
                    proof {
                        reveal(Seq::filter);
                        assert(av.take(0) =~= Seq::<JsonV>::empty());
                        assert(avs(kept@) =~= spec_any_of_kept(b, av.take(0)));
                    }
                    let mut i: usize = 0;
                    while i < arms.len()
                        invariant
                            0 <= i <= arms@.len(),
                            av == avs(arms@),
                            avs(kept@) == spec_any_of_kept(b, av.take(i as int)),
                        decreases arms@.len() - i,
                    {
                        proof {
                            reveal(Seq::filter);
                            assert(av.take(i + 1).drop_last() =~= av.take(i as int));
                            assert(av.take(i + 1).last() == jv(arms@[i as int]));
                        }
                        if any_of_arm_stays(b, &arms[i]) {
                            let e = deep_clone(&arms[i]);
                            kept.push(e);
                            proof {
                                assert(avs(kept@) =~= spec_any_of_kept(b, av.take(i as int)).push(
                                    jv(arms@[i as int]),
                                ));
                                assert(spec_any_of_kept(b, av.take(i + 1)) == spec_any_of_kept(
                                    b,
                                    av.take(i as int),
                                ).push(jv(arms@[i as int])));
                            }
                        } else {
                            proof {
                                assert(spec_any_of_kept(b, av.take(i + 1)) == spec_any_of_kept(
                                    b,
                                    av.take(i as int),
                                ));
                            }
                        }
                        i += 1;
                    }
                    proof {
                        assert(av.take(arms@.len() as int) =~= av);
                    }
                    Some((kept, arms.len()))
                },
                _ => None,
            };
            match kept_and_len {
                None => {
                    let out = Json::Obj(m);
                    proof {
                        lemma_jv_obj(out->Obj_0);
                    }
                    (out, false)
                },
                Some((kept, n_arms)) => {
                    if kept.len() == 0 {
                        if n_arms > 0 {
                            let out = Json::Bool(false);
                            let changed = !json_eq(&out, &snap);
                            (out, changed)
                        } else {
                            let out = Json::Obj(m);
                            proof {
                                lemma_jv_obj(out->Obj_0);
                            }
                            (out, false)
                        }
                    } else {
                        let mut has_true = false;
                        let mut i: usize = 0;
                        while i < kept.len()
                            invariant
                                0 <= i <= kept@.len(),
                                has_true == exists|j: int|
                                    0 <= j < i && spec_is_true_schema(jv(kept@[j])),
                            decreases kept@.len() - i,
                        {
                            if is_true_schema(&kept[i]) {
                                has_true = true;
                            }
                            i += 1;
                        }
                        proof {
                            if has_true {
                                let j = choose|j: int|
                                    0 <= j < kept@.len() && spec_is_true_schema(jv(kept@[j]));
                                assert(avs(kept@)[j] == jv(kept@[j]));
                                assert(spec_has_true_arm(avs(kept@)));
                            } else {
                                assert forall|j: int|
                                    0 <= j < avs(kept@).len() implies !spec_is_true_schema(
                                    avs(kept@)[j],
                                ) by {
                                    assert(avs(kept@)[j] == jv(kept@[j]));
                                }
                            }
                            assert(has_true == spec_has_true_arm(avs(kept@)));
                        }
                        if has_true {
                            let _ = obj_remove(&mut m, "anyOf");
                            let out = Json::Obj(m);
                            proof {
                                lemma_jv_obj(out->Obj_0);
                            }
                            let changed = !json_eq(&out, &snap);
                            (out, changed)
                        } else if kept.len() == n_arms {
                            let out = Json::Obj(m);
                            proof {
                                lemma_jv_obj(out->Obj_0);
                            }
                            (out, false)
                        } else {
                            proof {
                                lemma_jv_arr(kept);
                            }
                            obj_set(&mut m, "anyOf", Json::Arr(kept));
                            let out = Json::Obj(m);
                            proof {
                                lemma_jv_obj(out->Obj_0);
                            }
                            let changed = !json_eq(&out, &snap);
                            (out, changed)
                        }
                    }
                },
            }
        },
        other => (other, false),
    }
}

} // verus!
