//! The `required` keyword: an empty list requires nothing and is dropped.

use crate::json::{deep_clone, json_eq, jv, kvs, lemma_jv_obj, obj_get, obj_remove, okv_get,
    okv_remove, Json, JsonV};
use vstd::prelude::*;

verus! {

/// The schema after dropping an empty `required` list.
pub open spec fn spec_remove_empty_required(s: JsonV) -> JsonV {
    match s {
        JsonV::Obj(m) => match okv_get(m, "required"@) {
            Some(JsonV::Arr(a)) => if a.len() == 0 {
                JsonV::Obj(okv_remove(m, "required"@))
            } else {
                s
            },
            _ => s,
        },
        _ => s,
    }
}

/// Drops `required` when its value is an empty list, and reports whether the
/// schema changed.
pub fn remove_empty_required(schema: Json) -> (r: (Json, bool))
    ensures
        r.0@ == spec_remove_empty_required(schema@),
        r.1 == (r.0@ != schema@),
{
    let snap = deep_clone(&schema);
    match schema {
        Json::Obj(mut m) => {
            proof {
                lemma_jv_obj(m);
            }
            let empty_required = match obj_get(&m, "required") {
                Some(Json::Arr(a)) => a.len() == 0,
                _ => false,
            };
            if empty_required {
                let _ = obj_remove(&mut m, "required");
                let out = Json::Obj(m);
                proof {
                    lemma_jv_obj(out->Obj_0);
                }
                let changed = !json_eq(&out, &snap);
                (out, changed)
            } else {
                let out = Json::Obj(m);
                proof {
                    lemma_jv_obj(out->Obj_0);
                }
                (out, false)
            }
        },
        other => (other, false),
    }
}

} // verus!
