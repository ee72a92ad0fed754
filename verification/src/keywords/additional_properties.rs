//! The `additionalProperties` keyword: an accepting schema there restricts
//! nothing and is dropped.

use crate::helpers::{is_true_schema, spec_is_true_schema};
use crate::json::{deep_clone, json_eq, jv, kvs, lemma_jv_obj, obj_get, obj_remove, okv_get,
    okv_remove, Json, JsonV};
use vstd::prelude::*;

verus! {

/// The schema after dropping an accepting `additionalProperties`.
pub open spec fn spec_simplify_additional_properties(s: JsonV) -> JsonV {
    match s {
        JsonV::Obj(m) => match okv_get(m, "additionalProperties"@) {
            Some(v) => if spec_is_true_schema(v) {
                JsonV::Obj(okv_remove(m, "additionalProperties"@))
            } else {
                s
            },
            None => s,
        },
        _ => s,
    }
}

/// Drops `additionalProperties` when its schema accepts everything, and
/// reports whether the schema changed.
pub fn simplify_additional_properties(schema: Json) -> (r: (Json, bool))
    ensures
        r.0@ == spec_simplify_additional_properties(schema@),
        r.1 == (r.0@ != schema@),
{
    let snap = deep_clone(&schema);
    match schema {
        Json::Obj(mut m) => {
            proof {
                lemma_jv_obj(m);
            }
            let drop_it = match obj_get(&m, "additionalProperties") {
                Some(v) => is_true_schema(v),
                None => false,
            };
            if drop_it {
                let _ = obj_remove(&mut m, "additionalProperties");
                let out = Json::Obj(m);
                proof {
                    lemma_jv_obj(out->Obj_0);
                }
                let changed = !json_eq(&out, &snap);
                (out, changed)
            } else {
                let out = Json::Obj(m);
                proof {
                    lemma_jv_obj(out->Obj_0);
                }
                (out, false)
            }
        },
        other => (other, false),
    }
}

} // verus!
