//! The paired bound keywords: an upper bound below its lower bound makes
//! the constrained primitive type impossible, and a zero lower bound on a
//! count is redundant.

use crate::helpers::types::{spec_types_of_schema, PrimitiveTypesBitMap};
use crate::helpers::{spec_type_with, type_with};
use crate::json::{deep_clone, json_eq, jv, kvs, lemma_jv_obj, obj_get, obj_remove, okv_get,
    okv_remove, Json, JsonV, Number};
use crate::num::{num_lt, num_lt_exec, num_sgn, num_sgn_exec};
use crate::primitive_type::PrimitiveType;
use vstd::prelude::*;

verus! {

/// The numeric value of a keyword, when it is a number.
pub open spec fn spec_num_of(o: Option<JsonV>) -> Option<Number> {
    match o {
        Some(JsonV::Num(n)) => Some(n),
        _ => None,
    }
}

/// One bound pair: when the subject type is admitted and the pair is numeric
/// with `max < min`, the types in `rm` become impossible — the schema turns
/// rejecting when nothing else is admitted, else both bounds go away.  For
/// counting pairs a lower bound of at most zero is dropped as redundant.
pub open spec fn spec_pair_step(
    cur: JsonV,
    b: PrimitiveTypesBitMap,
    subject: PrimitiveType,
    rm: PrimitiveTypesBitMap,
    kmax: Seq<char>,
    kmin: Seq<char>,
    zero_del: bool,
) -> (JsonV, PrimitiveTypesBitMap) {
    match cur {
        JsonV::Obj(m) => {
            if !b.spec_contains(subject) {
                (cur, b)
            } else {
                let mx = spec_num_of(okv_get(m, kmax));
                let mn = spec_num_of(okv_get(m, kmin));
                match (mx, mn) {
                    (Some(a), Some(c)) => if num_lt(a, c) {
                        let b2 = b.spec_remove_all(rm);
                        if b2.spec_is_empty() {
                            (JsonV::Bool(false), b2)
                        } else {
                            (JsonV::Obj(okv_remove(okv_remove(m, kmax), kmin)), b2)
                        }
                    } else if zero_del && num_sgn(c) <= 0 {
                        (JsonV::Obj(okv_remove(m, kmin)), b)
                    } else {
                        (cur, b)
                    },
                    (None, Some(c)) => if zero_del && num_sgn(c) <= 0 {
                        (JsonV::Obj(okv_remove(m, kmin)), b)
                    } else {
                        (cur, b)
                    },
                    _ => (cur, b),
                }
            }
        },
        _ => (cur, b),
    }
}

/// Applies one bound pair in place.
fn pair_step(
    schema: Json,
    b: &mut PrimitiveTypesBitMap,
    subject: PrimitiveType,
    rm: PrimitiveTypesBitMap,
    kmax: &str,
    kmin: &str,
    zero_del: bool,
) -> (r: Json)
    ensures
        r@ == spec_pair_step(schema@, *old(b), subject, rm, kmax@, kmin@, zero_del).0,
        *final(b) == spec_pair_step(schema@, *old(b), subject, rm, kmax@, kmin@, zero_del).1,
{
    match schema {
        Json::Obj(mut m) => {
            proof {
                lemma_jv_obj(m);
            }
            if !b.contains(subject) {
                let out = Json::Obj(m);
                proof {
                    lemma_jv_obj(out->Obj_0);
                }
                return out;
            }
            let mx: Option<Number> = match obj_get(&m, kmax) {
                Some(Json::Num(n)) => Some(*n),
                _ => None,
            };
            let mn: Option<Number> = match obj_get(&m, kmin) {
                Some(Json::Num(n)) => Some(*n),
                _ => None,
            };
            match (mx, mn) {
                (Some(a), Some(c)) => {
                    if num_lt_exec(&a, &c) {
                        b.remove_all(rm);
                        if b.is_empty() {
                            Json::Bool(false)
                        } else {
                            let _ = obj_remove(&mut m, kmax);
                            let _ = obj_remove(&mut m, kmin);
                            let out = Json::Obj(m);
                            proof {
                                lemma_jv_obj(out->Obj_0);
                            }
                            out
                        }
                    } else if zero_del && num_sgn_exec(&c) <= 0 {
                        let _ = obj_remove(&mut m, kmin);
                        let out = Json::Obj(m);
                        proof {
                            lemma_jv_obj(out->Obj_0);
                        }
                        out
                    } else {
                        let out = Json::Obj(m);
                        proof {
                            lemma_jv_obj(out->Obj_0);
                        }
                        out
                    }
                },
                (None, Some(c)) => {
                    if zero_del && num_sgn_exec(&c) <= 0 {
                        let _ = obj_remove(&mut m, kmin);
                        let out = Json::Obj(m);
                        proof {
                            lemma_jv_obj(out->Obj_0);
                        }
                        out
                    } else {
                        let out = Json::Obj(m);
                        proof {
                            lemma_jv_obj(out->Obj_0);
                        }
                        out
                    }
                },
                _ => {
                    let out = Json::Obj(m);
                    proof {
                        lemma_jv_obj(out->Obj_0);
                    }
                    out
                },
            }
        },
        other => other,
    }
}

/// The schema after settling every bound pair against the declared types,
/// with the `type` keyword rewritten from what survives when anything
/// changed.
pub open spec fn spec_update_max_min_related_keywords(s: JsonV) -> JsonV {
    let b0 = spec_types_of_schema(s);
    let rm_arr = PrimitiveTypesBitMap::spec_none().spec_add(PrimitiveType::Array);
    let rm_str = PrimitiveTypesBitMap::spec_none().spec_add(PrimitiveType::String);
    let rm_obj = PrimitiveTypesBitMap::spec_none().spec_add(PrimitiveType::Object);
    let rm_num = PrimitiveTypesBitMap::spec_none().spec_add(PrimitiveType::Integer).spec_add(
        PrimitiveType::Number,
    );
    let p1 = spec_pair_step(s, b0, PrimitiveType::Array, rm_arr, "maxItems"@, "minItems"@, true);
    let p2 = spec_pair_step(
        p1.0,
        p1.1,
        PrimitiveType::String,
        rm_str,
        "maxLength"@,
        "minLength"@,
        true,
    );
    let p3 = spec_pair_step(
        p2.0,
        p2.1,
        PrimitiveType::Object,
        rm_obj,
        "maxProperties"@,
        "minProperties"@,
        true,
    );
    let p4 = spec_pair_step(
        p3.0,
        p3.1,
        PrimitiveType::Integer,
        rm_num,
        "exclusiveMaximum"@,
        "exclusiveMinimum"@,
        false,
    );
    let p5 = spec_pair_step(
        p4.0,
        p4.1,
        PrimitiveType::Integer,
        rm_num,
        "maximum"@,
        "minimum"@,
        false,
    );
    if p5.0 == s {
        s
    } else {
        match p5.0 {
            JsonV::Obj(m5) => JsonV::Obj(spec_type_with(m5, p5.1)),
            _ => p5.0,
        }
    }
}

/// Settles the five bound pairs against the declared types, and reports
/// whether the schema changed.
pub fn update_max_min_related_keywords(schema: Json) -> (r: (Json, bool))
    ensures
        r.0@ == spec_update_max_min_related_keywords(schema@),
        r.1 == (r.0@ != schema@),
{
    let snap = deep_clone(&schema);
    let mut b = PrimitiveTypesBitMap::from_schema(&schema);
    let rm_arr = PrimitiveTypesBitMap::none().add(PrimitiveType::Array);
    let rm_str = PrimitiveTypesBitMap::none().add(PrimitiveType::String);
    let rm_obj = PrimitiveTypesBitMap::none().add(PrimitiveType::Object);
    let rm_num = PrimitiveTypesBitMap::none().add(PrimitiveType::Integer).add(
        PrimitiveType::Number,
    );
    let s1 = pair_step(schema, &mut b, PrimitiveType::Array, rm_arr, "maxItems", "minItems", true);
    let s2 = pair_step(s1, &mut b, PrimitiveType::String, rm_str, "maxLength", "minLength", true);
    let s3 = pair_step(
        s2,
        &mut b,
        PrimitiveType::Object,
        rm_obj,
        "maxProperties",
        "minProperties",
        true,
    );
    let s4 = pair_step(
        s3,
        &mut b,
        PrimitiveType::Integer,
        rm_num,
        "exclusiveMaximum",
        "exclusiveMinimum",
        false,
    );
    let s5 = pair_step(s4, &mut b, PrimitiveType::Integer, rm_num, "maximum", "minimum", false);
    if json_eq(&s5, &snap) {
        (s5, false)
    } else {
        match s5 {
            Json::Obj(mut m5) => {
                proof {
                    lemma_jv_obj(m5);
                }
                type_with(&mut m5, b);
                let out = Json::Obj(m5);
                proof {
                    lemma_jv_obj(out->Obj_0);
                }
                let changed = !json_eq(&out, &snap);
                (out, changed)
            },
            other => {
                let changed = !json_eq(&other, &snap);
                (other, changed)
            },
        }
    }
}

} // verus!
