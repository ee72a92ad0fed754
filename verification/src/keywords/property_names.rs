//! The `propertyNames` keyword: object keys are strings by construction, so
//! the keyword either narrows to strings, collapses to a property bound, or
//! goes away.

use crate::helpers::types::{spec_types_of_schema, spec_types_of_type_value, PrimitiveTypesBitMap};
use crate::helpers::{is_true_schema, spec_is_true_schema, spec_type_with, type_with};
use crate::json::{deep_clone, json_eq, jv, kvs, lemma_jv_obj, obj_get, obj_has, obj_remove,
    obj_set, okv_get, okv_has, okv_remove, okv_set, Json, JsonV, Number};
use crate::num::{num_sgn, num_sgn_exec};
use crate::primitive_type::PrimitiveType;
use vstd::prelude::*;

verus! {

/// Whether `minProperties` demands at least one property.
pub open spec fn spec_minp_positive(m: Seq<(Seq<char>, JsonV)>) -> bool {
    match okv_get(m, "minProperties"@) {
        Some(JsonV::Num(n)) => num_sgn(n) > 0,
        _ => false,
    }
}

/// The `propertyNames` value narrowed to strings, when it is an object.
pub open spec fn spec_narrowed_pn(pn: JsonV) -> JsonV {
    match pn {
        JsonV::Obj(pno) => JsonV::Obj(
            spec_type_with(
                pno,
                PrimitiveTypesBitMap::spec_none().spec_add(PrimitiveType::String),
            ),
        ),
        _ => pn,
    }
}

/// The schema after reconciling `propertyNames` with the declared types:
/// an accepting one goes away; one that cannot accept strings forbids all
/// properties, which removes the object type or bounds the property count;
/// one that admits strings among other types narrows to strings; and a bare
/// `{"type": "string"}` is a tautology for object keys and goes away.
pub open spec fn spec_optimise_property_names(s: JsonV) -> JsonV {
    match s {
        JsonV::Obj(m) => match okv_get(m, "propertyNames"@) {
            None => s,
            Some(pn) => {
                if spec_is_true_schema(pn) {
                    JsonV::Obj(okv_remove(m, "propertyNames"@))
                } else {
                    let b_outer = spec_types_of_type_value(okv_get(m, "type"@));
                    let pn_types = spec_types_of_schema(pn);
                    let narrow = pn_types.spec_contains(PrimitiveType::String)
                        && pn_types.spec_has_other_than(PrimitiveType::String) && (pn
                        is Obj);
                    let m1 = if narrow {
                        okv_set(m, "propertyNames"@, spec_narrowed_pn(pn))
                    } else {
                        m
                    };
                    if b_outer.spec_contains(PrimitiveType::Object) {
                        if !pn_types.spec_contains(PrimitiveType::String) {
                            if spec_minp_positive(m) {
                                let b2 = b_outer.spec_remove(PrimitiveType::Object);
                                if b2.spec_is_empty() {
                                    JsonV::Bool(false)
                                } else {
                                    JsonV::Obj(spec_type_with(m1, b2))
                                }
                            } else {
                                JsonV::Obj(
                                    okv_remove(
                                        okv_set(
                                            m1,
                                            "maxProperties"@,
                                            JsonV::Num(Number::PosInt(0)),
                                        ),
                                        "propertyNames"@,
                                    ),
                                )
                            }
                        } else {
                            match okv_get(m1, "propertyNames"@) {
                                Some(JsonV::Obj(pno)) => if pno.len() == 1 && okv_has(
                                    pno,
                                    "type"@,
                                ) {
                                    JsonV::Obj(okv_remove(m1, "propertyNames"@))
                                } else {
                                    JsonV::Obj(
                                        okv_set(
                                            m1,
                                            "propertyNames"@,
                                            JsonV::Obj(
                                                spec_type_with(
                                                    pno,
                                                    PrimitiveTypesBitMap::spec_none().spec_add(
                                                        PrimitiveType::String,
                                                    ),
                                                ),
                                            ),
                                        ),
                                    )
                                },
                                _ => JsonV::Obj(m1),
                            }
                        }
                    } else {
                        JsonV::Obj(okv_remove(m1, "propertyNames"@))
                    }
                }
            },
        },
        _ => s,
    }
}

/// A copy of the `propertyNames` value with its `type` narrowed to strings.
fn narrowed_pn(pn: &Json) -> (r: Json)
    ensures
        r@ == spec_narrowed_pn(pn@),
{
    let c = deep_clone(pn);
    match c {
        Json::Obj(mut pno) => {
            proof {
                lemma_jv_obj(pno);
            }
            type_with(&mut pno, PrimitiveTypesBitMap::none().add(PrimitiveType::String));
            let out = Json::Obj(pno);
            proof {
                lemma_jv_obj(out->Obj_0);
            }
            out
        },
        other => other,
    }
}

/// Reconciles `propertyNames` with the declared types, and reports whether
/// the schema changed.
pub fn optimise_property_names(schema: Json) -> (r: (Json, bool))
    ensures
        r.0@ == spec_optimise_property_names(schema@),
        r.1 == (r.0@ != schema@),
{
    let snap = deep_clone(&schema);
    match schema {
        Json::Obj(mut m) => {
            proof {
                lemma_jv_obj(m);
            }
            let (pn_present, pn_true) = match obj_get(&m, "propertyNames") {
                Some(v) => (true, is_true_schema(v)),
                None => (false, false),
            };
            if !pn_present {
                let out = Json::Obj(m);
                proof {
                    lemma_jv_obj(out->Obj_0);
                }
                return (out, false);
            }
            if pn_true {
                let _ = obj_remove(&mut m, "propertyNames");
                let out = Json::Obj(m);
                proof {
                    lemma_jv_obj(out->Obj_0);
                }
                let changed = !json_eq(&out, &snap);
                return (out, changed);
            }
            let b_outer = PrimitiveTypesBitMap::from_schema_value(obj_get(&m, "type"));
            let minp_pos = match obj_get(&m, "minProperties") {
                Some(Json::Num(n)) => num_sgn_exec(n) > 0,
                _ => false,
            };
            let (pn_types, pn_is_obj) = match obj_get(&m, "propertyNames") {
                Some(v) => (
                    PrimitiveTypesBitMap::from_schema(v),
                    match v {
                        Json::Obj(_) => true,
                        _ => false,
                    },
                ),
                None => (PrimitiveTypesBitMap::none(), false),
            };
            let narrow = pn_types.contains(PrimitiveType::String)
                && pn_types.has_other_primitive_types_other_than(PrimitiveType::String)
                && pn_is_obj;
            if narrow {
                let new_pn = match obj_get(&m, "propertyNames") {
                    Some(v) => narrowed_pn(v),
                    None => Json::Null,
                };
                obj_set(&mut m, "propertyNames", new_pn);
            }
            if b_outer.contains(PrimitiveType::Object) {
                if !pn_types.contains(PrimitiveType::String) {
                    if minp_pos {
                        let mut b2 = b_outer;
                        b2.remove(PrimitiveType::Object);
                        if b2.is_empty() {
                            let out = Json::Bool(false);
                            let changed = !json_eq(&out, &snap);
                            (out, changed)
                        } else {
                            type_with(&mut m, b2);
                            let out = Json::Obj(m);
                            proof {
                                lemma_jv_obj(out->Obj_0);
                            }
                            let changed = !json_eq(&out, &snap);
                            (out, changed)
                        }
                    } else {
                        obj_set(&mut m, "maxProperties", Json::Num(Number::PosInt(0)));
                        let _ = obj_remove(&mut m, "propertyNames");
                        let out = Json::Obj(m);
                        proof {
                            lemma_jv_obj(out->Obj_0);
                        }
                        let changed = !json_eq(&out, &snap);
                        (out, changed)
                    }
                } else {
                    // 0: leave alone, 1: drop the tautology, 2: rewrite its type
                    let action: u8 = match obj_get(&m, "propertyNames") {
                        Some(Json::Obj(pno)) => {
                            proof {
                                lemma_jv_obj(*pno);
                            }
                            if pno.len() == 1 && obj_has(pno, "type") {
                                1
                            } else {
                                2
                            }
                        },
                        _ => 0,
                    };
                    if action == 1 {
                        let _ = obj_remove(&mut m, "propertyNames");
                    } else if action == 2 {
                        let new_pn = match obj_get(&m, "propertyNames") {
                            Some(v) => narrowed_pn(v),
                            None => Json::Null,
                        };
                        obj_set(&mut m, "propertyNames", new_pn);
                    }
                    let out = Json::Obj(m);
                    proof {
                        lemma_jv_obj(out->Obj_0);
                    }
                    let changed = !json_eq(&out, &snap);
                    (out, changed)
                }
            } else {
                let _ = obj_remove(&mut m, "propertyNames");
                let out = Json::Obj(m);
                proof {
                    lemma_jv_obj(out->Obj_0);
                }
                let changed = !json_eq(&out, &snap);
                (out, changed)
            }
        },
        other => (other, false),
    }
}

} // verus!
