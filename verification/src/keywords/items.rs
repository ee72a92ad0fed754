//! The `items` keyword: a positional list longer than `maxItems` can never
//! be reached past that bound and is truncated.

use crate::json::{avs, clone_prefix, deep_clone, json_eq, jv, kvs, lemma_jv_arr, lemma_jv_obj,
    obj_get, obj_set, okv_get, okv_set, Json, JsonV};
use crate::num::num_as_u64;
use vstd::prelude::*;

verus! {

/// The schema after truncating a positional `items` list to `maxItems`
/// elements.
pub open spec fn spec_simplify_items(s: JsonV) -> JsonV {
    match s {
        JsonV::Obj(m) => {
            let mx = match okv_get(m, "maxItems"@) {
                Some(JsonV::Num(n)) => num_as_u64(n),
                _ => None,
            };
            match (okv_get(m, "items"@), mx) {
                (Some(JsonV::Arr(a)), Some(k)) => if a.len() > k {
                    JsonV::Obj(okv_set(m, "items"@, JsonV::Arr(a.take(k as int))))
                } else {
                    s
                },
                _ => s,
            }
        },
        _ => s,
    }
}

/// Truncates a positional `items` list to `maxItems` elements, and reports
/// whether the schema changed.
pub fn simplify_items(schema: Json) -> (r: (Json, bool))
    ensures
        r.0@ == spec_simplify_items(schema@),
        r.1 == (r.0@ != schema@),
{
    let snap = deep_clone(&schema);
    match schema {
        Json::Obj(mut m) => {
            proof {
                lemma_jv_obj(m);
            }
            let mx: Option<u64> = match obj_get(&m, "maxItems") {
                Some(Json::Num(n)) => n.as_u64(),
                _ => None,
            };
            let new_items: Option<Json> = match obj_get(&m, "items") {
                Some(Json::Arr(a)) => match mx {
                    Some(k) => {
                        if (a.len() as u64) > k {
                            let t = clone_prefix(a, k as usize);
                            proof {
                                lemma_jv_arr(t);
                                lemma_jv_arr(*a);
                            }
                            Some(Json::Arr(t))
                        } else {
                            None
                        }
                    },
                    None => None,
                },
                _ => None,
            };
            match new_items {
                Some(ni) => {
                    obj_set(&mut m, "items", ni);
                    let out = Json::Obj(m);
                    proof {
                        lemma_jv_obj(out->Obj_0);
                    }
                    let changed = !json_eq(&out, &snap);
                    (out, changed)
                },
                None => {
                    let out = Json::Obj(m);
                    proof {
                        lemma_jv_obj(out->Obj_0);
                    }
                    (out, false)
                },
            }
        },
        other => (other, false),
    }
}

} // verus!
