//! The `const` keyword: the declared types either admit the constant's type,
//! in which case `type` narrows to it, or the schema rejects everything.

use crate::helpers::types::{spec_types_of_type_value, PrimitiveTypesBitMap};
use crate::helpers::{spec_type_with, type_with};
use crate::json::{deep_clone, json_eq, jv, kvs, lemma_jv_obj, obj_get, obj_has, okv_get, okv_has,
    Json, JsonV};
use crate::primitive_type::{spec_type_of_value, PrimitiveType};
use vstd::prelude::*;

verus! {

/// The schema after reconciling `const` with the declared types: the `type`
/// keyword narrows to the constant's own type (an integral constant keeps a
/// declared `integer`), or the schema becomes rejecting when the declared
/// types exclude the constant.  Without a `type` keyword nothing changes.
pub open spec fn spec_simple_const_cleanup(s: JsonV) -> JsonV {
    match s {
        JsonV::Obj(m) => match okv_get(m, "const"@) {
            Some(cv) => {
                if !okv_has(m, "type"@) {
                    s
                } else {
                    let b = spec_types_of_type_value(okv_get(m, "type"@));
                    let cpt = spec_type_of_value(cv);
                    if b.spec_contains(cpt) {
                        JsonV::Obj(
                            spec_type_with(m, PrimitiveTypesBitMap::spec_none().spec_add(cpt)),
                        )
                    } else if cpt == PrimitiveType::Number && b.spec_contains(
                        PrimitiveType::Integer,
                    ) {
                        JsonV::Obj(
                            spec_type_with(
                                m,
                                PrimitiveTypesBitMap::spec_none().spec_add(
                                    PrimitiveType::Integer,
                                ),
                            ),
                        )
                    } else {
                        JsonV::Bool(false)
                    }
                }
            },
            None => s,
        },
        _ => s,
    }
}

/// Reconciles `const` with the declared types, and reports whether the
/// schema changed.
pub fn simple_const_cleanup(schema: Json) -> (r: (Json, bool))
    ensures
        r.0@ == spec_simple_const_cleanup(schema@),
        r.1 == (r.0@ != schema@),
{
    let snap = deep_clone(&schema);
    match schema {
        Json::Obj(mut m) => {
            proof {
                lemma_jv_obj(m);
            }
            let cpt: Option<PrimitiveType> = match obj_get(&m, "const") {
                Some(cv) => Some(PrimitiveType::of_value(cv)),
                None => None,
            };
            match cpt {
                None => {
                    let out = Json::Obj(m);
                    proof {
                        lemma_jv_obj(out->Obj_0);
                    }
                    (out, false)
                },
                Some(cpt) => {
                    if !obj_has(&m, "type") {
                        let out = Json::Obj(m);
                        proof {
                            lemma_jv_obj(out->Obj_0);
                        }
                        return (out, false);
                    }
                    let b = PrimitiveTypesBitMap::from_schema_value(obj_get(&m, "type"));
                    if b.contains(cpt) {
                        type_with(&mut m, PrimitiveTypesBitMap::none().add(cpt));
                        let out = Json::Obj(m);
                        proof {
                            lemma_jv_obj(out->Obj_0);
                        }
                        let changed = !json_eq(&out, &snap);
                        (out, changed)
                    } else if cpt == PrimitiveType::Number && b.contains(PrimitiveType::Integer) {
                        type_with(&mut m, PrimitiveTypesBitMap::none().add(PrimitiveType::Integer));
                        let out = Json::Obj(m);
                        proof {
                            lemma_jv_obj(out->Obj_0);
                        }
                        let changed = !json_eq(&out, &snap);
                        (out, changed)
                    } else {
                        let out = Json::Bool(false);
                        let changed = !json_eq(&out, &snap);
                        (out, changed)
                    }
                },
            }
        },
        other => (other, false),
    }
}

} // verus!
