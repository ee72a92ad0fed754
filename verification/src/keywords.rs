//! The rewrite rules, one module per keyword family, and the driver that
//! applies them over a whole schema tree.

pub mod additional_items;
pub mod additional_properties;
pub mod all_of;
pub mod any_of;
pub mod const_;
pub mod enum_;
pub mod if_;
pub mod ignore_keywords;
pub mod items;
pub mod min_max;
pub mod property_names;
pub mod required;
pub mod type_;

use crate::helpers::{is_true_schema, spec_is_true_schema};
use crate::json::{avs, deep_clone, jv, kvs, lemma_jv_arr, lemma_jv_obj, str_eq, Json, JsonV};
use vstd::prelude::*;

verus! {

/// The keywords whose value is itself a schema.
pub open spec fn spec_is_direct_sub(k: Seq<char>) -> bool {
    ||| k == "additionalItems"@
    ||| k == "additionalProperties"@
    ||| k == "contains"@
    ||| k == "else"@
    ||| k == "if"@
    ||| k == "not"@
    ||| k == "propertyNames"@
    ||| k == "then"@
}

/// The keywords whose value is a list of schemas.
pub open spec fn spec_is_list_sub(k: Seq<char>) -> bool {
    k == "allOf"@ || k == "anyOf"@ || k == "oneOf"@
}

/// The keywords whose value is an object holding schemas.
pub open spec fn spec_is_map_sub(k: Seq<char>) -> bool {
    k == "properties"@ || k == "patternProperties"@ || k == "dependencies"@
}

/// The keywords that bear sub-schemas at all; `items` holds either one
/// schema or a list of them.
pub open spec fn spec_is_subschema_kw(k: Seq<char>) -> bool {
    spec_is_direct_sub(k) || spec_is_list_sub(k) || spec_is_map_sub(k) || k == "items"@
}

/// The node-local rules, in their fixed order, stopping as soon as the
/// schema has collapsed to a boolean.
pub open spec fn spec_apply_rules(s0: JsonV) -> (JsonV, bool) {
    let s1 = type_::spec_remove_extraneous_keys_keyword_type(s0);
    let c1 = s1 != s0;
    if s1 is Bool {
        (s1, c1)
    } else {
        let s2 = ignore_keywords::spec_remove_keywords_in_must_ignore_groups(s1);
        let c2 = c1 || s2 != s1;
        if s2 is Bool {
            (s2, c2)
        } else {
            let s3 = additional_items::spec_simplify_additional_items(s2);
            let c3 = c2 || s3 != s2;
            if s3 is Bool {
                (s3, c3)
            } else {
                let s4 = additional_properties::spec_simplify_additional_properties(s3);
                let c4 = c3 || s4 != s3;
                if s4 is Bool {
                    (s4, c4)
                } else {
                    let s5 = const_::spec_simple_const_cleanup(s4);
                    let c5 = c4 || s5 != s4;
                    if s5 is Bool {
                        (s5, c5)
                    } else {
                        let s6 = enum_::spec_simple_enum_cleanup(s5);
                        let c6 = c5 || s6 != s5;
                        if s6 is Bool {
                            (s6, c6)
                        } else {
                            let s7 = if_::spec_simplify_if(s6);
                            let c7 = c6 || s7 != s6;
                            if s7 is Bool {
                                (s7, c7)
                            } else {
                                let s8 = items::spec_simplify_items(s7);
                                let c8 = c7 || s8 != s7;
                                if s8 is Bool {
                                    (s8, c8)
                                } else {
                                    let s9 = min_max::spec_update_max_min_related_keywords(s8);
                                    let c9 = c8 || s9 != s8;
                                    if s9 is Bool {
                                        (s9, c9)
                                    } else {
                                        let s10 = property_names::spec_optimise_property_names(s9);
                                        let c10 = c9 || s10 != s9;
                                        if s10 is Bool {
                                            (s10, c10)
                                        } else {
                                            let s11 = required::spec_remove_empty_required(s10);
                                            let c11 = c10 || s11 != s10;
                                            if s11 is Bool {
                                                (s11, c11)
                                            } else {
                                                let s12 = type_::spec_optimise_keyword_type(s11);
                                                let c12 = c11 || s12 != s11;
                                                if s12 is Bool {
                                                    (s12, c12)
                                                } else {
                                                    let s13 = all_of::spec_flatten_all_of(s12);
                                                    let c13 = c12 || s13 != s12;
                                                    if s13 is Bool {
                                                        (s13, c13)
                                                    } else {
                                                        let s14 = all_of::spec_simplify_all_of(
                                                            s13,
                                                        );
                                                        let c14 = c13 || s14 != s13;
                                                        if s14 is Bool {
                                                            (s14, c14)
                                                        } else {
                                                            let s15 =
                                                                ignore_keywords::spec_omit_keywords_that_do_not_alter_schema_selectivity(
                                                                s14,
                                                            );
                                                            let c15 = c14 || s15 != s14;
                                                            (s15, c15)
                                                        }
                                                    }
                                                }
                                            }
                                        }
                                    }
                                }
                            }
                        }
                    }
                }
            }
        }
    }
}

/// One driver pass over the entries of a schema object or schema map:
/// every value is updated, keys stay; the flag gathers the changes.
pub open spec fn spec_update_entries(m: Seq<(Seq<char>, JsonV)>) -> (Seq<(Seq<char>, JsonV)>, bool)
    decreases m, 2int,
{
    (
        Seq::new(
            m.len(),
            |i: int|
                if 0 <= i < m.len() {
                    (m[i].0, spec_update_sub(m[i].0, m[i].1).0)
                } else {
                    (Seq::<char>::empty(), JsonV::Null)
                },
        ),
        exists|i: int|
            0 <= i < m.len() && (if 0 <= i < m.len() {
                spec_update_sub(m[i].0, m[i].1).1
            } else {
                false
            }),
    )
}

/// One driver pass over a map of named schemas: every value is updated as
/// a schema in its own right, whatever its key; keys stay.
pub open spec fn spec_update_map(mo: Seq<(Seq<char>, JsonV)>) -> (Seq<(Seq<char>, JsonV)>, bool)
    decreases mo, 2int,
{
    (
        Seq::new(
            mo.len(),
            |i: int|
                if 0 <= i < mo.len() {
                    (mo[i].0, spec_update_schema(mo[i].1).0)
                } else {
                    (Seq::<char>::empty(), JsonV::Null)
                },
        ),
        exists|i: int|
            0 <= i < mo.len() && (if 0 <= i < mo.len() {
                spec_update_schema(mo[i].1).1
            } else {
                false
            }),
    )
}

/// One driver pass over a list of schemas, element by element.
pub open spec fn spec_update_list(a: Seq<JsonV>) -> (Seq<JsonV>, bool)
    decreases a, 2int,
{
    (
        Seq::new(
            a.len(),
            |i: int|
                if 0 <= i < a.len() {
                    spec_update_schema(a[i]).0
                } else {
                    JsonV::Null
                },
        ),
        exists|i: int|
            0 <= i < a.len() && (if 0 <= i < a.len() {
                spec_update_schema(a[i]).1
            } else {
                false
            }),
    )
}

/// One driver pass over a schema value: an accepting schema becomes the
/// canonical `true`; an object has its sub-schemas updated first and the
/// node-local rules applied after; anything else stays.  The flag gathers
/// every reported change.
pub open spec fn spec_update_schema(s: JsonV) -> (JsonV, bool)
    decreases s, 0int,
{
    if spec_is_true_schema(s) {
        (JsonV::Bool(true), s != JsonV::Bool(true))
    } else {
        match s {
            JsonV::Obj(m) => {
                let rec = spec_update_entries(m);
                let rules = spec_apply_rules(JsonV::Obj(rec.0));
                (rules.0, rec.1 || rules.1)
            },
            _ => (s, false),
        }
    }
}

/// One driver pass over the value of keyword `k`: direct sub-schemas are
/// updated themselves, schema lists element by element, schema maps value
/// by value; everything else stays.
pub open spec fn spec_update_sub(k: Seq<char>, v: JsonV) -> (JsonV, bool)
    decreases v, 1int,
{
    if !spec_is_subschema_kw(k) {
        (v, false)
    } else if spec_is_direct_sub(k) || (k == "items"@ && !(v is Arr)) {
        spec_update_schema(v)
    } else if (spec_is_list_sub(k) || k == "items"@) && v is Arr {
        let t = spec_update_list(v->Arr_0);
        (JsonV::Arr(t.0), t.1)
    } else if spec_is_map_sub(k) && v is Obj {
        let t = spec_update_map(v->Obj_0);
        (JsonV::Obj(t.0), t.1)
    } else {
        (v, false)
    }
}

/// Whether `k` bears sub-schemas, and how.
fn classify_sub(k: &str) -> (r: (bool, bool, bool, bool))
    ensures
        r.0 == spec_is_direct_sub(k@),
        r.1 == spec_is_list_sub(k@),
        r.2 == spec_is_map_sub(k@),
        r.3 == (k@ == "items"@),
{
    let direct = str_eq(k, "additionalItems") || str_eq(k, "additionalProperties") || str_eq(
        k,
        "contains",
    ) || str_eq(k, "else") || str_eq(k, "if") || str_eq(k, "not") || str_eq(k, "propertyNames")
        || str_eq(k, "then");
    let list = str_eq(k, "allOf") || str_eq(k, "anyOf") || str_eq(k, "oneOf");
    let map = str_eq(k, "properties") || str_eq(k, "patternProperties") || str_eq(
        k,
        "dependencies",
    );
    let items = str_eq(k, "items");
    (direct, list, map, items)
}

/// Applies the node-local rules in their fixed order, stopping as soon as
/// the schema collapses to a boolean, and reports whether anything changed.
pub fn update_schema_no_recursive(schema: Json) -> (r: (Json, bool))
    ensures
        r.0@ == spec_apply_rules(schema@).0,
        r.1 == spec_apply_rules(schema@).1,
{
    let (s1, c1) = type_::remove_extraneous_keys_keyword_type(schema);
    if matches!(&s1, Json::Bool(_)) {
        return (s1, c1);
    }
    let (s2, ch) = ignore_keywords::remove_keywords_in_must_ignore_groups(s1);
    let c2 = c1 || ch;
    if matches!(&s2, Json::Bool(_)) {
        return (s2, c2);
    }
    let (s3, ch) = additional_items::simplify_additional_items(s2);
    let c3 = c2 || ch;
    if matches!(&s3, Json::Bool(_)) {
        return (s3, c3);
    }
    let (s4, ch) = additional_properties::simplify_additional_properties(s3);
    let c4 = c3 || ch;
    if matches!(&s4, Json::Bool(_)) {
        return (s4, c4);
    }
    let (s5, ch) = const_::simple_const_cleanup(s4);
    let c5 = c4 || ch;
    if matches!(&s5, Json::Bool(_)) {
        return (s5, c5);
    }
    let (s6, ch) = enum_::simple_enum_cleanup(s5);
    let c6 = c5 || ch;
    if matches!(&s6, Json::Bool(_)) {
        return (s6, c6);
    }
    let (s7, ch) = if_::simplify_if(s6);
    let c7 = c6 || ch;
    if matches!(&s7, Json::Bool(_)) {
        return (s7, c7);
    }
    let (s8, ch) = items::simplify_items(s7);
    let c8 = c7 || ch;
    if matches!(&s8, Json::Bool(_)) {
        return (s8, c8);
    }
    let (s9, ch) = min_max::update_max_min_related_keywords(s8);
    let c9 = c8 || ch;
    if matches!(&s9, Json::Bool(_)) {
        return (s9, c9);
    }
    let (s10, ch) = property_names::optimise_property_names(s9);
    let c10 = c9 || ch;
    if matches!(&s10, Json::Bool(_)) {
        return (s10, c10);
    }
    let (s11, ch) = required::remove_empty_required(s10);
    let c11 = c10 || ch;
    if matches!(&s11, Json::Bool(_)) {
        return (s11, c11);
    }
    let (s12, ch) = type_::optimise_keyword_type(s11);
    let c12 = c11 || ch;
    if matches!(&s12, Json::Bool(_)) {
        return (s12, c12);
    }
    let (s13, ch) = all_of::flatten_all_of(s12);
    let c13 = c12 || ch;
    if matches!(&s13, Json::Bool(_)) {
        return (s13, c13);
    }
    let (s14, ch) = all_of::simplify_all_of(s13);
    let c14 = c13 || ch;
    if matches!(&s14, Json::Bool(_)) {
        return (s14, c14);
    }
    let (s15, ch) = ignore_keywords::omit_keywords_that_do_not_alter_schema_selectivity(s14);
    let c15 = c14 || ch;
    (s15, c15)
}

/// One driver pass over the entries of a schema object or schema map.
fn update_entries(m: &Vec<(String, Json)>) -> (r: (Vec<(String, Json)>, bool))
    ensures
        kvs(r.0@) == spec_update_entries(kvs(m@)).0,
        r.1 == spec_update_entries(kvs(m@)).1,
    decreases *m, 2int,
{
    let ghost mv = kvs(m@);
    let mut out: Vec<(String, Json)> = Vec::new();
    let mut ch = false;
    let mut i: usize = 0;
    while i < m.len()
        invariant
            0 <= i <= m@.len(),
            mv == kvs(m@),
            out@.len() == i,
            forall|j: int|
                #![trigger out@[j]]
                0 <= j < i ==> (out@[j].0@ == m@[j].0@ && jv(out@[j].1) == spec_update_sub(
                    m@[j].0@,
                    jv(m@[j].1),
                ).0),
            ch == exists|j: int| 0 <= j < i && spec_update_sub(m@[j].0@, jv(m@[j].1)).1,
        decreases m@.len() - i,
    {
        proof {
            assert(decreases_to!(*m => m@));
            assert(decreases_to!(m@ => m@[i as int]));
            assert(decreases_to!(m@[i as int] => m@[i as int].1));
        }
        let (nv, c1) = update_sub(m[i].0.as_str(), &m[i].1);
        let key = m[i].0.clone();
        out.push((key, nv));
        proof {
            if c1 {
                assert(spec_update_sub(m@[i as int].0@, jv(m@[i as int].1)).1);
            }
        }
        ch = ch || c1;
        i += 1;
    }
    proof {
        let t = spec_update_entries(mv);
        assert(t.0.len() == mv.len());
        assert forall|j: int| 0 <= j < mv.len() implies kvs(out@)[j] == t.0[j] by {
            assert(t.0[j] == (mv[j].0, spec_update_sub(mv[j].0, mv[j].1).0));
            assert(mv[j] == (m@[j].0@, jv(m@[j].1)));
            assert(kvs(out@)[j] == (out@[j].0@, jv(out@[j].1)));
        }
        assert(kvs(out@) =~= t.0);
        if ch {
            let j = choose|j: int| 0 <= j < m@.len() && spec_update_sub(m@[j].0@, jv(m@[j].1)).1;
            assert(mv[j] == (m@[j].0@, jv(m@[j].1)));
            assert(0 <= j < mv.len() && spec_update_sub(mv[j].0, mv[j].1).1);
            assert(t.1);
        } else {
            assert forall|j: int| 0 <= j < mv.len() implies !spec_update_sub(
                mv[j].0,
                mv[j].1,
            ).1 by {
                assert(mv[j] == (m@[j].0@, jv(m@[j].1)));
            }
            assert(!t.1);
        }
    }
    (out, ch)
}

/// One driver pass over a map of named schemas.
fn update_map(mo: &Vec<(String, Json)>) -> (r: (Vec<(String, Json)>, bool))
    ensures
        kvs(r.0@) == spec_update_map(kvs(mo@)).0,
        r.1 == spec_update_map(kvs(mo@)).1,
    decreases *mo, 2int,
{
    let ghost mv = kvs(mo@);
    let mut out: Vec<(String, Json)> = Vec::new();
    let mut ch = false;
    let mut i: usize = 0;
    while i < mo.len()
        invariant
            0 <= i <= mo@.len(),
            mv == kvs(mo@),
            out@.len() == i,
            forall|j: int|
                #![trigger out@[j]]
                0 <= j < i ==> (out@[j].0@ == mo@[j].0@ && jv(out@[j].1) == spec_update_schema(
                    jv(mo@[j].1),
                ).0),
            ch == exists|j: int| 0 <= j < i && spec_update_schema(jv(mo@[j].1)).1,
        decreases mo@.len() - i,
    {
        proof {
            assert(decreases_to!(*mo => mo@));
            assert(decreases_to!(mo@ => mo@[i as int]));
            assert(decreases_to!(mo@[i as int] => mo@[i as int].1));
        }
        let (nv, c1) = update_schema(&mo[i].1);
        let key = mo[i].0.clone();
        out.push((key, nv));
        proof {
            if c1 {
                assert(spec_update_schema(jv(mo@[i as int].1)).1);
            }
        }
        ch = ch || c1;
        i += 1;
    }
    proof {
        let t = spec_update_map(mv);
        assert(t.0.len() == mv.len());
        assert forall|j: int| 0 <= j < mv.len() implies kvs(out@)[j] == t.0[j] by {
            assert(t.0[j] == (mv[j].0, spec_update_schema(mv[j].1).0));
            assert(mv[j] == (mo@[j].0@, jv(mo@[j].1)));
            assert(kvs(out@)[j] == (out@[j].0@, jv(out@[j].1)));
        }
        assert(kvs(out@) =~= t.0);
        if ch {
            let j = choose|j: int| 0 <= j < mo@.len() && spec_update_schema(jv(mo@[j].1)).1;
            assert(mv[j] == (mo@[j].0@, jv(mo@[j].1)));
            assert(0 <= j < mv.len() && spec_update_schema(mv[j].1).1);
            assert(t.1);
        } else {
            assert forall|j: int| 0 <= j < mv.len() implies !spec_update_schema(mv[j].1).1 by {
                assert(mv[j] == (mo@[j].0@, jv(mo@[j].1)));
            }
            assert(!t.1);
        }
    }
    (out, ch)
}

/// One driver pass over a list of schemas.
fn update_list(a: &Vec<Json>) -> (r: (Vec<Json>, bool))
    ensures
        avs(r.0@) == spec_update_list(avs(a@)).0,
        r.1 == spec_update_list(avs(a@)).1,
    decreases *a, 2int,
{
    let ghost av = avs(a@);
    let mut out: Vec<Json> = Vec::new();
    let mut ch = false;
    let mut i: usize = 0;
    while i < a.len()
        invariant
            0 <= i <= a@.len(),
            av == avs(a@),
            out@.len() == i,
            forall|j: int|
                #![trigger out@[j]]
                0 <= j < i ==> jv(out@[j]) == spec_update_schema(jv(a@[j])).0,
            ch == exists|j: int| 0 <= j < i && spec_update_schema(jv(a@[j])).1,
        decreases a@.len() - i,
    {
        proof {
            assert(decreases_to!(*a => a@));
            assert(decreases_to!(a@ => a@[i as int]));
        }
        let (nv, c1) = update_schema(&a[i]);
        out.push(nv);
        proof {
            if c1 {
                assert(spec_update_schema(jv(a@[i as int])).1);
            }
        }
        ch = ch || c1;
        i += 1;
    }
    proof {
        let t = spec_update_list(av);
        assert(t.0.len() == av.len());
        assert forall|j: int| 0 <= j < av.len() implies avs(out@)[j] == t.0[j] by {
            assert(t.0[j] == spec_update_schema(av[j]).0);
            assert(av[j] == jv(a@[j]));
            assert(avs(out@)[j] == jv(out@[j]));
        }
        assert(avs(out@) =~= t.0);
        if ch {
            let j = choose|j: int| 0 <= j < a@.len() && spec_update_schema(jv(a@[j])).1;
            assert(av[j] == jv(a@[j]));
            assert(0 <= j < av.len() && spec_update_schema(av[j]).1);
            assert(t.1);
        } else {
            assert forall|j: int| 0 <= j < av.len() implies !spec_update_schema(av[j]).1 by {
                assert(av[j] == jv(a@[j]));
            }
            assert(!t.1);
        }
    }
    (out, ch)
}

/// One driver pass: updates every sub-schema, then applies the node-local
/// rules, and reports whether anything changed.
pub fn update_schema(schema: &Json) -> (r: (Json, bool))
    ensures
        r.0@ == spec_update_schema(schema@).0,
        r.1 == spec_update_schema(schema@).1,
    decreases *schema, 0int,
{
    if is_true_schema(schema) {
        let was_plain_true = match schema {
            Json::Bool(b) => *b,
            _ => false,
        };
        return (Json::Bool(true), !was_plain_true);
    }
    match schema {
        Json::Obj(m) => {
            proof {
                lemma_jv_obj(*m);
                assert(decreases_to!(*schema => (*schema)->Obj_0));
                assert((*schema)->Obj_0 == *m);
            }
            let (out, child_changed) = update_entries(m);
            let node_in = Json::Obj(out);
            proof {
                lemma_jv_obj(node_in->Obj_0);
            }
            let (s_after, rule_changed) = update_schema_no_recursive(node_in);
            (s_after, child_changed || rule_changed)
        },
        other => {
            let c = deep_clone(other);
            (c, false)
        },
    }
}

/// One driver pass over the value of keyword `k`.
pub fn update_sub(k: &str, v: &Json) -> (r: (Json, bool))
    ensures
        r.0@ == spec_update_sub(k@, v@).0,
        r.1 == spec_update_sub(k@, v@).1,
    decreases *v, 1int,
{
    let (direct, list, map, items) = classify_sub(k);
    if !(direct || list || map || items) {
        let c = deep_clone(v);
        return (c, false);
    }
    let v_is_arr = match v {
        Json::Arr(_) => true,
        _ => false,
    };
    if direct || (items && !v_is_arr) {
        return update_schema(v);
    }
    if (list || items) && v_is_arr {
        match v {
            Json::Arr(a) => {
                proof {
                    lemma_jv_arr(*a);
                    assert(decreases_to!(*v => (*v)->Arr_0));
                    assert((*v)->Arr_0 == *a);
                }
                let (na, ch) = update_list(a);
                let out = Json::Arr(na);
                proof {
                    lemma_jv_arr(out->Arr_0);
                }
                return (out, ch);
            },
            _ => {
                let c = deep_clone(v);
                return (c, false);
            },
        }
    }
    if map {
        match v {
            Json::Obj(mo) => {
                proof {
                    lemma_jv_obj(*mo);
                    assert(decreases_to!(*v => (*v)->Obj_0));
                    assert((*v)->Obj_0 == *mo);
                }
                let (nm, ch) = update_map(mo);
                let out = Json::Obj(nm);
                proof {
                    lemma_jv_obj(out->Obj_0);
                }
                return (out, ch);
            },
            _ => {
                let c = deep_clone(v);
                return (c, false);
            },
        }
    }
    let c = deep_clone(v);
    (c, false)
}

} // verus!
