//! Keywords that cannot fire on their own: `then` and `else` without `if`,
//! `additionalItems` without `items`, and keywords whose value is their
//! neutral element.

use crate::helpers::{is_false_schema, is_true_schema, spec_is_false_schema, spec_is_true_schema};
use crate::json::{deep_clone, json_eq, jv, kvs, lemma_jv_obj, obj_get, obj_has, obj_remove,
    okv_get, okv_has, okv_remove, Json, JsonV, Number};
use crate::num::num_is_zero;
use vstd::prelude::*;

verus! {

/// One parent/child dependency: the entries after dropping `child` when
/// `parent` is absent.
pub open spec fn spec_drop_orphan(
    m: Seq<(Seq<char>, JsonV)>,
    parent: Seq<char>,
    child: Seq<char>,
) -> Seq<(Seq<char>, JsonV)> {
    if okv_has(m, child) && !okv_has(m, parent) {
        okv_remove(m, child)
    } else {
        m
    }
}

/// The schema after dropping `else` and `then` when `if` is absent, and
/// `additionalItems` when `items` is absent.
pub open spec fn spec_remove_keywords_in_must_ignore_groups(s: JsonV) -> JsonV {
    match s {
        JsonV::Obj(m) => {
            let m1 = spec_drop_orphan(m, "if"@, "else"@);
            let m2 = spec_drop_orphan(m1, "if"@, "then"@);
            let m3 = spec_drop_orphan(m2, "items"@, "additionalItems"@);
            JsonV::Obj(m3)
        },
        _ => s,
    }
}

/// Drops one orphaned child keyword.
fn drop_orphan(m: &mut Vec<(String, Json)>, parent: &str, child: &str)
    ensures
        kvs(final(m)@) == spec_drop_orphan(kvs(old(m)@), parent@, child@),
{
    if obj_has(m, child) && !obj_has(m, parent) {
        let _ = obj_remove(m, child);
    }
}

/// Drops the keywords that only matter beside a parent keyword that is
/// absent, and reports whether the schema changed.
pub fn remove_keywords_in_must_ignore_groups(schema: Json) -> (r: (Json, bool))
    ensures
        r.0@ == spec_remove_keywords_in_must_ignore_groups(schema@),
        r.1 == (r.0@ != schema@),
{
    let snap = deep_clone(&schema);
    match schema {
        Json::Obj(mut m) => {
            proof {
                lemma_jv_obj(m);
            }
            drop_orphan(&mut m, "if", "else");
            drop_orphan(&mut m, "if", "then");
            drop_orphan(&mut m, "items", "additionalItems");
            let out = Json::Obj(m);
            proof {
                lemma_jv_obj(out->Obj_0);
            }
            let changed = !json_eq(&out, &snap);
            (out, changed)
        },
        other => (other, false),
    }
}

/// The shapes of neutral values that make a keyword a no-op.
#[derive(Clone, Copy, PartialEq, Eq, Structural)]
pub enum NeutralShape {
    /// A schema accepting everything.
    AcceptAll,
    /// An object with no keys.
    EmptyObject,
    /// The number zero.
    Zero,
    /// An array with no elements.
    EmptyArray,
    /// The boolean `false`.
    FalseValue,
}

/// Whether a value is the neutral element of the given shape.
pub open spec fn spec_is_neutral(shape: NeutralShape, v: JsonV) -> bool {
    match shape {
        NeutralShape::AcceptAll => spec_is_true_schema(v),
        NeutralShape::EmptyObject => match v {
            JsonV::Obj(o) => o.len() == 0,
            _ => false,
        },
        NeutralShape::Zero => match v {
            JsonV::Num(n) => num_is_zero(n),
            _ => false,
        },
        NeutralShape::EmptyArray => match v {
            JsonV::Arr(a) => a.len() == 0,
            _ => false,
        },
        NeutralShape::FalseValue => spec_is_false_schema(v),
    }
}

/// Whether a value is the neutral element of the given shape.
fn is_neutral(shape: NeutralShape, v: &Json) -> (r: bool)
    ensures
        r == spec_is_neutral(shape, v@),
{
    match shape {
        NeutralShape::AcceptAll => is_true_schema(v),
        NeutralShape::EmptyObject => match v {
            Json::Obj(o) => o.len() == 0,
            _ => false,
        },
        NeutralShape::Zero => match v {
            Json::Num(n) => n.is_zero(),
            _ => false,
        },
        NeutralShape::EmptyArray => match v {
            Json::Arr(a) => a.len() == 0,
            _ => false,
        },
        NeutralShape::FalseValue => is_false_schema(v),
    }
}

/// The entries after dropping key `k` when its value is neutral for `shape`.
pub open spec fn spec_omit_neutral(
    m: Seq<(Seq<char>, JsonV)>,
    k: Seq<char>,
    shape: NeutralShape,
) -> Seq<(Seq<char>, JsonV)> {
    match okv_get(m, k) {
        Some(v) => if spec_is_neutral(shape, v) {
            okv_remove(m, k)
        } else {
            m
        },
        None => m,
    }
}

/// Drops key `k` when its value is neutral for `shape`.
fn omit_neutral(m: &mut Vec<(String, Json)>, k: &str, shape: NeutralShape)
    ensures
        kvs(final(m)@) == spec_omit_neutral(kvs(old(m)@), k@, shape),
{
    let neutral = match obj_get(m, k) {
        Some(v) => is_neutral(shape, v),
        None => false,
    };
    if neutral {
        let _ = obj_remove(m, k);
    }
}

/// The schema after dropping every keyword whose value is its neutral
/// element, in the fixed keyword order.
pub open spec fn spec_omit_keywords_that_do_not_alter_schema_selectivity(s: JsonV) -> JsonV {
    match s {
        JsonV::Obj(m) => {
            let m1 = spec_omit_neutral(m, "additionalItems"@, NeutralShape::AcceptAll);
            let m2 = spec_omit_neutral(m1, "additionalProperties"@, NeutralShape::AcceptAll);
            let m3 = spec_omit_neutral(m2, "dependencies"@, NeutralShape::EmptyObject);
            let m4 = spec_omit_neutral(m3, "else"@, NeutralShape::AcceptAll);
            let m5 = spec_omit_neutral(m4, "items"@, NeutralShape::AcceptAll);
            let m6 = spec_omit_neutral(m5, "minItems"@, NeutralShape::Zero);
            let m7 = spec_omit_neutral(m6, "minLength"@, NeutralShape::Zero);
            let m8 = spec_omit_neutral(m7, "minProperties"@, NeutralShape::Zero);
            let m9 = spec_omit_neutral(m8, "patternProperties"@, NeutralShape::EmptyObject);
            let m10 = spec_omit_neutral(m9, "properties"@, NeutralShape::EmptyObject);
            let m11 = spec_omit_neutral(m10, "propertyNames"@, NeutralShape::EmptyObject);
            let m12 = spec_omit_neutral(m11, "required"@, NeutralShape::EmptyArray);
            let m13 = spec_omit_neutral(m12, "then"@, NeutralShape::AcceptAll);
            let m14 = spec_omit_neutral(m13, "uniqueItems"@, NeutralShape::FalseValue);
            JsonV::Obj(m14)
        },
        _ => s,
    }
}

/// Drops keywords whose value is their neutral element, and reports whether
/// the schema changed.
pub fn omit_keywords_that_do_not_alter_schema_selectivity(schema: Json) -> (r: (Json, bool))
    ensures
        r.0@ == spec_omit_keywords_that_do_not_alter_schema_selectivity(schema@),
        r.1 == (r.0@ != schema@),
{
    let snap = deep_clone(&schema);
    match schema {
        Json::Obj(mut m) => {
            proof {
                lemma_jv_obj(m);
            }
            omit_neutral(&mut m, "additionalItems", NeutralShape::AcceptAll);
            omit_neutral(&mut m, "additionalProperties", NeutralShape::AcceptAll);
            omit_neutral(&mut m, "dependencies", NeutralShape::EmptyObject);
            omit_neutral(&mut m, "else", NeutralShape::AcceptAll);
            omit_neutral(&mut m, "items", NeutralShape::AcceptAll);
            omit_neutral(&mut m, "minItems", NeutralShape::Zero);
            omit_neutral(&mut m, "minLength", NeutralShape::Zero);
            omit_neutral(&mut m, "minProperties", NeutralShape::Zero);
            omit_neutral(&mut m, "patternProperties", NeutralShape::EmptyObject);
            omit_neutral(&mut m, "properties", NeutralShape::EmptyObject);
            omit_neutral(&mut m, "propertyNames", NeutralShape::EmptyObject);
            omit_neutral(&mut m, "required", NeutralShape::EmptyArray);
            omit_neutral(&mut m, "then", NeutralShape::AcceptAll);
            omit_neutral(&mut m, "uniqueItems", NeutralShape::FalseValue);
            let out = Json::Obj(m);
            proof {
                lemma_jv_obj(out->Obj_0);
            }
            let changed = !json_eq(&out, &snap);
            (out, changed)
        },
        other => (other, false),
    }
}

} // verus!
