//! The `additionalItems` keyword: it is dropped when it cannot fire, and a
//! rejecting value turns into a `maxItems` bound.

use crate::helpers::{is_false_schema, is_true_schema, spec_is_false_schema, spec_is_true_schema};
use crate::json::{deep_clone, json_eq, jv, kvs, lemma_jv_obj, obj_get, obj_remove, obj_set,
    okv_get, okv_remove, okv_set, Json, JsonV, Number};
use crate::num::num_as_u64;
use vstd::prelude::*;

verus! {

/// The reading of `maxItems` that this rule uses: a missing, non-numeric or
/// non-integral value places no bound.
pub open spec fn spec_max_items_or_unbounded(m: Seq<(Seq<char>, JsonV)>) -> u64 {
    match okv_get(m, "maxItems"@) {
        Some(JsonV::Num(n)) => match num_as_u64(n) {
            Some(v) => v,
            None => u64::MAX,
        },
        _ => u64::MAX,
    }
}

/// The schema after simplifying `additionalItems`:
/// - an accepting value restricts nothing and is dropped;
/// - with a single-schema `items` (an object or a boolean), positions
///   beyond the list cannot exist and the keyword is dropped;
/// - with a positional `items` list of length `L`, a rejecting value is
///   the same as `maxItems <= L`, so it is dropped and `maxItems` tightened;
/// - with a positional list already covered by `maxItems`, it is dropped.
pub open spec fn spec_simplify_additional_items(s: JsonV) -> JsonV {
    match s {
        JsonV::Obj(m) => match okv_get(m, "additionalItems"@) {
            None => s,
            Some(ai) => {
                if spec_is_true_schema(ai) {
                    JsonV::Obj(okv_remove(m, "additionalItems"@))
                } else {
                    match okv_get(m, "items"@) {
                        Some(JsonV::Obj(_)) | Some(JsonV::Bool(_)) => JsonV::Obj(
                            okv_remove(m, "additionalItems"@),
                        ),
                        Some(JsonV::Arr(items)) => {
                            let mx = spec_max_items_or_unbounded(m);
                            if spec_is_false_schema(ai) {
                                let m1 = okv_remove(m, "additionalItems"@);
                                if mx > items.len() {
                                    JsonV::Obj(
                                        okv_set(
                                            m1,
                                            "maxItems"@,
                                            JsonV::Num(Number::PosInt(items.len() as u64)),
                                        ),
                                    )
                                } else {
                                    JsonV::Obj(m1)
                                }
                            } else if mx <= items.len() {
                                JsonV::Obj(okv_remove(m, "additionalItems"@))
                            } else {
                                s
                            }
                        },
                        _ => s,
                    }
                }
            },
        },
        _ => s,
    }
}

/// Simplifies `additionalItems`, and reports whether the schema changed.
pub fn simplify_additional_items(schema: Json) -> (r: (Json, bool))
    ensures
        r.0@ == spec_simplify_additional_items(schema@),
        r.1 == (r.0@ != schema@),
{
    let snap = deep_clone(&schema);
    match schema {
        Json::Obj(mut m) => {
            proof {
                lemma_jv_obj(m);
            }
            let (ai_present, ai_true, ai_false) = match obj_get(&m, "additionalItems") {
                Some(v) => (true, is_true_schema(v), is_false_schema(v)),
                None => (false, false, false),
            };
            if !ai_present {
                let out = Json::Obj(m);
                proof {
                    lemma_jv_obj(out->Obj_0);
                }
                return (out, false);
            }
            if ai_true {
                let _ = obj_remove(&mut m, "additionalItems");
                let out = Json::Obj(m);
                proof {
                    lemma_jv_obj(out->Obj_0);
                }
                let changed = !json_eq(&out, &snap);
                return (out, changed);
            }
            let (items_is_single_schema, items_len) = match obj_get(&m, "items") {
                Some(Json::Obj(_)) | Some(Json::Bool(_)) => (true, None),
                Some(Json::Arr(a)) => (false, Some(a.len())),
                _ => (false, None),
            };
            if items_is_single_schema {
                let _ = obj_remove(&mut m, "additionalItems");
                let out = Json::Obj(m);
                proof {
                    lemma_jv_obj(out->Obj_0);
                }
                let changed = !json_eq(&out, &snap);
                return (out, changed);
            }
            match items_len {
                Some(l) => {
                    let mx: u64 = match obj_get(&m, "maxItems") {
                        Some(Json::Num(n)) => match n.as_u64() {
                            Some(v) => v,
                            None => u64::MAX,
                        },
                        _ => u64::MAX,
                    };
                    if ai_false {
                        let _ = obj_remove(&mut m, "additionalItems");
                        if mx > l as u64 {
                            obj_set(&mut m, "maxItems", Json::Num(Number::PosInt(l as u64)));
                        }
                        let out = Json::Obj(m);
                        proof {
                            lemma_jv_obj(out->Obj_0);
                        }
                        let changed = !json_eq(&out, &snap);
                        (out, changed)
                    } else if mx <= l as u64 {
                        let _ = obj_remove(&mut m, "additionalItems");
                        let out = Json::Obj(m);
                        proof {
                            lemma_jv_obj(out->Obj_0);
                        }
                        let changed = !json_eq(&out, &snap);
                        (out, changed)
                    } else {
                        let out = Json::Obj(m);
                        proof {
                            lemma_jv_obj(out->Obj_0);
                        }
                        (out, false)
                    }
                },
                None => {
                    let out = Json::Obj(m);
                    proof {
                        lemma_jv_obj(out->Obj_0);
                    }
                    (out, false)
                },
            }
        },
        other => (other, false),
    }
}

} // verus!
