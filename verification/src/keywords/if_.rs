//! The `if`/`then`/`else` keywords: a constant predicate picks one branch,
//! which moves into `allOf`; a predicate without branches does nothing.

use crate::helpers::{is_false_schema, is_true_schema, spec_is_false_schema, spec_is_true_schema};
use crate::json::{avs, deep_clone, json_eq, jv, kvs, lemma_jv_arr, lemma_jv_obj, obj_get, obj_has,
    obj_remove, obj_set, okv_get, okv_has, okv_remove, okv_set, Json, JsonV};
use vstd::prelude::*;

verus! {

/// Whether the `allOf` value, if any, has the array shape the rewrite needs.
pub open spec fn spec_all_of_slot_ok(m: Seq<(Seq<char>, JsonV)>) -> bool {
    match okv_get(m, "allOf"@) {
        Some(JsonV::Arr(_)) => true,
        None => true,
        Some(_) => false,
    }
}

/// The entries after settling a constant `if`: `if` and the dead branch
/// `drop_k` go away, and the live branch `keep_k`, if present, is appended
/// to the `allOf` list, which moves to the end.  A present `allOf` that is
/// not an array blocks the rewrite, so that no constraint is lost.
pub open spec fn spec_if_rewrite(
    m: Seq<(Seq<char>, JsonV)>,
    drop_k: Seq<char>,
    keep_k: Seq<char>,
) -> Seq<(Seq<char>, JsonV)> {
    if !okv_has(m, keep_k) {
        okv_remove(okv_remove(m, "if"@), drop_k)
    } else if !spec_all_of_slot_ok(m) {
        m
    } else {
        let m2 = okv_remove(okv_remove(m, "if"@), drop_k);
        match okv_get(m2, keep_k) {
            Some(kv) => {
                let m3 = okv_remove(m2, keep_k);
                let arms = match okv_get(m3, "allOf"@) {
                    Some(JsonV::Arr(x)) => x,
                    _ => Seq::<JsonV>::empty(),
                };
                let m4 = okv_remove(m3, "allOf"@);
                okv_set(m4, "allOf"@, JsonV::Arr(arms.push(kv)))
            },
            None => okv_remove(m2, keep_k),
        }
    }
}

/// The schema after simplifying a constant or vacuous `if`.
pub open spec fn spec_simplify_if(s: JsonV) -> JsonV {
    match s {
        JsonV::Obj(m) => match okv_get(m, "if"@) {
            Some(iv) => {
                if spec_is_false_schema(iv) {
                    JsonV::Obj(spec_if_rewrite(m, "then"@, "else"@))
                } else if spec_is_true_schema(iv) {
                    JsonV::Obj(spec_if_rewrite(m, "else"@, "then"@))
                } else if !okv_has(m, "then"@) && !okv_has(m, "else"@) {
                    JsonV::Obj(okv_remove(m, "if"@))
                } else {
                    s
                }
            },
            None => s,
        },
        _ => s,
    }
}

/// Settles a constant `if` in place.
fn if_rewrite(m: &mut Vec<(String, Json)>, drop_k: &str, keep_k: &str)
    ensures
        kvs(final(m)@) == spec_if_rewrite(kvs(old(m)@), drop_k@, keep_k@),
{
    if !obj_has(m, keep_k) {
        let _ = obj_remove(m, "if");
        let _ = obj_remove(m, drop_k);
        return ;
    }
    let slot_ok = match obj_get(m, "allOf") {
        Some(Json::Arr(_)) => true,
        None => true,
        Some(_) => false,
    };
    if !slot_ok {
        return ;
    }
    let _ = obj_remove(m, "if");
    let _ = obj_remove(m, drop_k);
    match obj_remove(m, keep_k) {
        Some(kv) => {
            let ghost m3 = kvs(m@);
            let ghost kvv = jv(kv);
            let mut arms: Vec<Json> = match obj_remove(m, "allOf") {
                Some(Json::Arr(x)) => {
                    proof {
                        lemma_jv_arr(x);
                    }
                    x
                },
                _ => Vec::new(),
            };
            proof {
                let spec_arms = (match okv_get(m3, "allOf"@) {
                    Some(JsonV::Arr(x)) => x,
                    _ => Seq::<JsonV>::empty(),
                });
                assert(avs(arms@) =~= spec_arms);
            }
            let ghost arms0 = avs(arms@);
            arms.push(kv);
            proof {
                lemma_jv_arr(arms);
                assert(avs(arms@) =~= arms0.push(kvv));
            }
            obj_set(m, "allOf", Json::Arr(arms));
        },
        None => (),
    }
}

/// Simplifies a constant or vacuous `if`, and reports whether the schema
/// changed.
pub fn simplify_if(schema: Json) -> (r: (Json, bool))
    ensures
        r.0@ == spec_simplify_if(schema@),
        r.1 == (r.0@ != schema@),
{
    let snap = deep_clone(&schema);
    match schema {
        Json::Obj(mut m) => {
            proof {
                lemma_jv_obj(m);
            }
            let (if_present, if_false, if_true) = match obj_get(&m, "if") {
                Some(v) => (true, is_false_schema(v), is_true_schema(v)),
                None => (false, false, false),
            };
            if !if_present {
                let out = Json::Obj(m);
                proof {
                    lemma_jv_obj(out->Obj_0);
                }
                return (out, false);
            }
            if if_false {
                if_rewrite(&mut m, "then", "else");
            } else if if_true {
                if_rewrite(&mut m, "else", "then");
            } else if !obj_has(&m, "then") && !obj_has(&m, "else") {
                let _ = obj_remove(&mut m, "if");
            } else {
                let out = Json::Obj(m);
                proof {
                    lemma_jv_obj(out->Obj_0);
                }
                return (out, false);
            }
            let out = Json::Obj(m);
            proof {
                lemma_jv_obj(out->Obj_0);
            }
            let changed = !json_eq(&out, &snap);
            (out, changed)
        },
        other => (other, false),
    }
}

} // verus!
