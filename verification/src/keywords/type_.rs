//! Rules driven by the `type` keyword: pruning keywords that cannot fire for
//! the declared types, and canonicalizing the `type` value itself.

use crate::constants::strs;
use crate::helpers::types::{spec_types_of_type_value, PrimitiveTypesBitMap};
use crate::helpers::{
    okv_keep_listed, preserve_keys, push_all, spec_type_with, type_with,
};
use crate::json::{deep_clone, json_eq, jv, kvs, lemma_jv_obj, obj_get, okv_get, Json, JsonV};
use vstd::prelude::*;

verus! {

/// The keywords that stay meaningful when only arrays are admitted.
pub open spec fn spec_keywords_type_array() -> Seq<Seq<char>> {
    seq![
        "additionalItems"@,
        "allOf"@,
        "anyOf"@,
        "const"@,
        "contains"@,
        "else"@,
        "enum"@,
        "if"@,
        "items"@,
        "maxItems"@,
        "minItems"@,
        "not"@,
        "oneOf"@,
        "then"@,
        "type"@,
        "uniqueItems"@,
    ]
}

/// The keywords that stay meaningful when only booleans are admitted.
pub open spec fn spec_keywords_type_boolean() -> Seq<Seq<char>> {
    seq![
        "allOf"@,
        "anyOf"@,
        "const"@,
        "else"@,
        "enum"@,
        "if"@,
        "not"@,
        "oneOf"@,
        "then"@,
        "type"@,
    ]
}

/// The keywords that stay meaningful when only nulls are admitted.
pub open spec fn spec_keywords_type_null() -> Seq<Seq<char>> {
    spec_keywords_type_boolean()
}

/// The keywords that stay meaningful when only integers are admitted.
pub open spec fn spec_keywords_type_integer() -> Seq<Seq<char>> {
    seq![
        "allOf"@,
        "anyOf"@,
        "const"@,
        "else"@,
        "enum"@,
        "exclusiveMaximum"@,
        "exclusiveMinimum"@,
        "format"@,
        "if"@,
        "maximum"@,
        "minimum"@,
        "multipleOf"@,
        "not"@,
        "oneOf"@,
        "then"@,
        "type"@,
    ]
}

/// The keywords that stay meaningful when only numbers are admitted.
pub open spec fn spec_keywords_type_number() -> Seq<Seq<char>> {
    spec_keywords_type_integer()
}

/// The keywords that stay meaningful when only objects are admitted.
pub open spec fn spec_keywords_type_object() -> Seq<Seq<char>> {
    seq![
        "additionalProperties"@,
        "allOf"@,
        "anyOf"@,
        "const"@,
        "dependencies"@,
        "else"@,
        "enum"@,
        "if"@,
        "maxProperties"@,
        "minProperties"@,
        "not"@,
        "oneOf"@,
        "patternProperties"@,
        "properties"@,
        "propertyNames"@,
        "required"@,
        "then"@,
        "type"@,
    ]
}

/// The keywords that stay meaningful when only strings are admitted.
pub open spec fn spec_keywords_type_string() -> Seq<Seq<char>> {
    seq![
        "allOf"@,
        "anyOf"@,
        "const"@,
        "contentEncoding"@,
        "contentMediaType"@,
        "else"@,
        "enum"@,
        "format"@,
        "if"@,
        "maxLength"@,
        "minLength"@,
        "not"@,
        "oneOf"@,
        "pattern"@,
        "then"@,
        "type"@,
    ]
}

/// The keywords that stay meaningful when only arrays are admitted.
pub fn keywords_type_array() -> (r: Vec<String>)
    ensures
        strs(r@) == spec_keywords_type_array(),
{
    let mut v: Vec<String> = Vec::new();
    v.push(String::from_str("additionalItems"));
    v.push(String::from_str("allOf"));
    v.push(String::from_str("anyOf"));
    v.push(String::from_str("const"));
    v.push(String::from_str("contains"));
    v.push(String::from_str("else"));
    v.push(String::from_str("enum"));
    v.push(String::from_str("if"));
    v.push(String::from_str("items"));
    v.push(String::from_str("maxItems"));
    v.push(String::from_str("minItems"));
    v.push(String::from_str("not"));
    v.push(String::from_str("oneOf"));
    v.push(String::from_str("then"));
    v.push(String::from_str("type"));
    v.push(String::from_str("uniqueItems"));
    proof {
        assert(strs(v@) =~= spec_keywords_type_array());
    }
    v
}

/// The keywords that stay meaningful when only booleans are admitted.
pub fn keywords_type_boolean() -> (r: Vec<String>)
    ensures
        strs(r@) == spec_keywords_type_boolean(),
{
    let mut v: Vec<String> = Vec::new();
    v.push(String::from_str("allOf"));
    v.push(String::from_str("anyOf"));
    v.push(String::from_str("const"));
    v.push(String::from_str("else"));
    v.push(String::from_str("enum"));
    v.push(String::from_str("if"));
    v.push(String::from_str("not"));
    v.push(String::from_str("oneOf"));
    v.push(String::from_str("then"));
    v.push(String::from_str("type"));
    proof {
        assert(strs(v@) =~= spec_keywords_type_boolean());
    }
    v
}

/// The keywords that stay meaningful when only nulls are admitted.
pub fn keywords_type_null() -> (r: Vec<String>)
    ensures
        strs(r@) == spec_keywords_type_null(),
{
    keywords_type_boolean()
}

/// The keywords that stay meaningful when only integers are admitted.
pub fn keywords_type_integer() -> (r: Vec<String>)
    ensures
        strs(r@) == spec_keywords_type_integer(),
{
    let mut v: Vec<String> = Vec::new();
    v.push(String::from_str("allOf"));
    v.push(String::from_str("anyOf"));
    v.push(String::from_str("const"));
    v.push(String::from_str("else"));
    v.push(String::from_str("enum"));
    v.push(String::from_str("exclusiveMaximum"));
    v.push(String::from_str("exclusiveMinimum"));
    v.push(String::from_str("format"));
    v.push(String::from_str("if"));
    v.push(String::from_str("maximum"));
    v.push(String::from_str("minimum"));
    v.push(String::from_str("multipleOf"));
    v.push(String::from_str("not"));
    v.push(String::from_str("oneOf"));
    v.push(String::from_str("then"));
    v.push(String::from_str("type"));
    proof {
        assert(strs(v@) =~= spec_keywords_type_integer());
    }
    v
}

/// The keywords that stay meaningful when only numbers are admitted.
pub fn keywords_type_number() -> (r: Vec<String>)
    ensures
        strs(r@) == spec_keywords_type_number(),
{
    keywords_type_integer()
}

/// The keywords that stay meaningful when only objects are admitted.
pub fn keywords_type_object() -> (r: Vec<String>)
    ensures
        strs(r@) == spec_keywords_type_object(),
{
    let mut v: Vec<String> = Vec::new();
    v.push(String::from_str("additionalProperties"));
    v.push(String::from_str("allOf"));
    v.push(String::from_str("anyOf"));
    v.push(String::from_str("const"));
    v.push(String::from_str("dependencies"));
    v.push(String::from_str("else"));
    v.push(String::from_str("enum"));
    v.push(String::from_str("if"));
    v.push(String::from_str("maxProperties"));
    v.push(String::from_str("minProperties"));
    v.push(String::from_str("not"));
    v.push(String::from_str("oneOf"));
    v.push(String::from_str("patternProperties"));
    v.push(String::from_str("properties"));
    v.push(String::from_str("propertyNames"));
    v.push(String::from_str("required"));
    v.push(String::from_str("then"));
    v.push(String::from_str("type"));
    proof {
        assert(strs(v@) =~= spec_keywords_type_object());
    }
    v
}

/// The keywords that stay meaningful when only strings are admitted.
pub fn keywords_type_string() -> (r: Vec<String>)
    ensures
        strs(r@) == spec_keywords_type_string(),
{
    let mut v: Vec<String> = Vec::new();
    v.push(String::from_str("allOf"));
    v.push(String::from_str("anyOf"));
    v.push(String::from_str("const"));
    v.push(String::from_str("contentEncoding"));
    v.push(String::from_str("contentMediaType"));
    v.push(String::from_str("else"));
    v.push(String::from_str("enum"));
    v.push(String::from_str("format"));
    v.push(String::from_str("if"));
    v.push(String::from_str("maxLength"));
    v.push(String::from_str("minLength"));
    v.push(String::from_str("not"));
    v.push(String::from_str("oneOf"));
    v.push(String::from_str("pattern"));
    v.push(String::from_str("then"));
    v.push(String::from_str("type"));
    proof {
        assert(strs(v@) =~= spec_keywords_type_string());
    }
    v
}

/// The keywords to preserve for the types admitted by `b`: the union of the
/// per-type lists for every raised flag.
pub open spec fn spec_keep_list(b: PrimitiveTypesBitMap) -> Seq<Seq<char>> {
    let e = Seq::<Seq<char>>::empty();
    (if b.arr {
        spec_keywords_type_array()
    } else {
        e
    }) + (if b.boo {
        spec_keywords_type_boolean()
    } else {
        e
    }) + (if b.int {
        spec_keywords_type_integer()
    } else {
        e
    }) + (if b.nul {
        spec_keywords_type_null()
    } else {
        e
    }) + (if b.num {
        spec_keywords_type_number()
    } else {
        e
    }) + (if b.obj {
        spec_keywords_type_object()
    } else {
        e
    }) + (if b.stri {
        spec_keywords_type_string()
    } else {
        e
    })
}

/// The keywords to preserve for the types admitted by `b`.
pub fn keep_list(b: PrimitiveTypesBitMap) -> (r: Vec<String>)
    ensures
        strs(r@) == spec_keep_list(b),
{
    let ghost e = Seq::<Seq<char>>::empty();
    let ghost p1 = if b.arr {
        spec_keywords_type_array()
    } else {
        e
    };
    let ghost p2 = if b.boo {
        spec_keywords_type_boolean()
    } else {
        e
    };
    let ghost p3 = if b.int {
        spec_keywords_type_integer()
    } else {
        e
    };
    let ghost p4 = if b.nul {
        spec_keywords_type_null()
    } else {
        e
    };
    let ghost p5 = if b.num {
        spec_keywords_type_number()
    } else {
        e
    };
    let ghost p6 = if b.obj {
        spec_keywords_type_object()
    } else {
        e
    };
    let ghost p7 = if b.stri {
        spec_keywords_type_string()
    } else {
        e
    };
    let mut keep: Vec<String> = Vec::new();
    if b.arr {
        let g = keywords_type_array();
        push_all(&mut keep, &g);
    }
    proof {
        assert(strs(keep@) =~= p1);
    }
    if b.boo {
        let g = keywords_type_boolean();
        push_all(&mut keep, &g);
    }
    proof {
        assert(strs(keep@) =~= p1 + p2);
    }
    if b.int {
        let g = keywords_type_integer();
        push_all(&mut keep, &g);
    }
    proof {
        assert(strs(keep@) =~= p1 + p2 + p3);
    }
    if b.nul {
        let g = keywords_type_null();
        push_all(&mut keep, &g);
    }
    proof {
        assert(strs(keep@) =~= p1 + p2 + p3 + p4);
    }
    if b.num {
        let g = keywords_type_number();
        push_all(&mut keep, &g);
    }
    proof {
        assert(strs(keep@) =~= p1 + p2 + p3 + p4 + p5);
    }
    if b.obj {
        let g = keywords_type_object();
        push_all(&mut keep, &g);
    }
    proof {
        assert(strs(keep@) =~= p1 + p2 + p3 + p4 + p5 + p6);
    }
    if b.stri {
        let g = keywords_type_string();
        push_all(&mut keep, &g);
    }
    proof {
        assert(strs(keep@) =~= p1 + p2 + p3 + p4 + p5 + p6 + p7);
        assert(strs(keep@) == spec_keep_list(b));
    }
    keep
}

/// The schema after pruning every known keyword that cannot fire for the
/// declared types, and rewriting `type` canonically.  A schema whose `type`
/// value admits nothing, and anything that is not an object, is left alone.
pub open spec fn spec_remove_extraneous_keys_keyword_type(s: JsonV) -> JsonV {
    match s {
        JsonV::Obj(m) => {
            let b = spec_types_of_type_value(okv_get(m, "type"@));
            if b.spec_is_empty() {
                s
            } else {
                JsonV::Obj(spec_type_with(okv_keep_listed(m, spec_keep_list(b)), b))
            }
        },
        _ => s,
    }
}

/// Removes the keywords that are irrelevant for the types the `type` keyword
/// admits, and reports whether the schema changed.
pub fn remove_extraneous_keys_keyword_type(schema: Json) -> (r: (Json, bool))
    ensures
        r.0@ == spec_remove_extraneous_keys_keyword_type(schema@),
        r.1 == (r.0@ != schema@),
{
    let snap = deep_clone(&schema);
    match schema {
        Json::Obj(mut m) => {
            proof {
                lemma_jv_obj(m);
            }
            let ghost s0 = kvs(m@);
            let b = PrimitiveTypesBitMap::from_schema_value(obj_get(&m, "type"));
            if b.is_empty() {
                let out = Json::Obj(m);
                proof {
                    lemma_jv_obj(out->Obj_0);
                }
                (out, false)
            } else {
                let keep = keep_list(b);
                preserve_keys(&mut m, &keep);
                type_with(&mut m, b);
                let out = Json::Obj(m);
                proof {
                    lemma_jv_obj(out->Obj_0);
                }
                let changed = !json_eq(&out, &snap);
                (out, changed)
            }
        },
        other => (other, false),
    }
}

/// The schema after rewriting its `type` keyword canonically: duplicates and
/// a redundant `integer` are dropped, a one-element list becomes a name, and
/// a full list is removed.  A `type` value that admits no type at all — an
/// empty list, or anything that is not a name or a list of names — makes
/// the schema reject everything.
pub open spec fn spec_optimise_keyword_type(s: JsonV) -> JsonV {
    match s {
        JsonV::Obj(m) => {
            let b = spec_types_of_type_value(okv_get(m, "type"@));
            if b.spec_is_empty() {
                JsonV::Bool(false)
            } else {
                JsonV::Obj(spec_type_with(m, b))
            }
        },
        _ => s,
    }
}

/// Rewrites the `type` keyword into its canonical form, or turns the schema
/// rejecting when the keyword admits no type, and reports whether the
/// schema changed.
pub fn optimise_keyword_type(schema: Json) -> (r: (Json, bool))
    ensures
        r.0@ == spec_optimise_keyword_type(schema@),
        r.1 == (r.0@ != schema@),
{
    let snap = deep_clone(&schema);
    match schema {
        Json::Obj(mut m) => {
            proof {
                lemma_jv_obj(m);
            }
            let b = PrimitiveTypesBitMap::from_schema_value(obj_get(&m, "type"));
            if b.is_empty() {
                let out = Json::Bool(false);
                let changed = !json_eq(&out, &snap);
                return (out, changed);
            }
            type_with(&mut m, b);
            let out = Json::Obj(m);
            proof {
                lemma_jv_obj(out->Obj_0);
            }
            let changed = !json_eq(&out, &snap);
            (out, changed)
        },
        other => (other, false),
    }
}

} // verus!
