//! The `enum` keyword: entries whose type the schema cannot admit are
//! dropped; if none survive, the schema rejects everything.

use crate::helpers::types::{spec_types_of_type_value, PrimitiveTypesBitMap};
use crate::json::{avs, deep_clone, json_eq, jv, kvs, lemma_jv_arr, lemma_jv_obj, obj_get, obj_set,
    okv_get, okv_set, Json, JsonV};
use crate::primitive_type::{spec_type_of_value, PrimitiveType};
use vstd::prelude::*;

verus! {

/// Whether an enum entry can satisfy the declared types: its own type is
/// admitted, or it is a number and integers are admitted.
pub open spec fn spec_enum_entry_fits(b: PrimitiveTypesBitMap, v: JsonV) -> bool {
    b.spec_contains(spec_type_of_value(v)) || (spec_type_of_value(v) == PrimitiveType::Number
        && b.spec_contains(PrimitiveType::Integer))
}

/// The enum entries that fit the declared types, in order.
pub open spec fn spec_enum_kept(b: PrimitiveTypesBitMap, ev: Seq<JsonV>) -> Seq<JsonV> {
    ev.filter(|v: JsonV| spec_enum_entry_fits(b, v))
}

/// The schema after dropping enum entries that the declared types exclude:
/// unchanged when nothing is dropped or the list was empty, rejecting when
/// nothing survives.
pub open spec fn spec_simple_enum_cleanup(s: JsonV) -> JsonV {
    match s {
        JsonV::Obj(m) => {
            let b = spec_types_of_type_value(okv_get(m, "type"@));
            if b.spec_is_empty() {
                s
            } else {
                match okv_get(m, "enum"@) {
                    Some(JsonV::Arr(ev)) => if ev.len() == 0 {
                        s
                    } else {
                        let kept = spec_enum_kept(b, ev);
                        if kept.len() == ev.len() {
                            s
                        } else if kept.len() == 0 {
                            JsonV::Bool(false)
                        } else {
                            JsonV::Obj(okv_set(m, "enum"@, JsonV::Arr(kept)))
                        }
                    },
                    _ => s,
                }
            }
        },
        _ => s,
    }
}

/// Whether an enum entry can satisfy the declared types.
fn enum_entry_fits(b: PrimitiveTypesBitMap, v: &Json) -> (r: bool)
    ensures
        r == spec_enum_entry_fits(b, v@),
{
    let pt = PrimitiveType::of_value(v);
    b.contains(pt) || (pt == PrimitiveType::Number && b.contains(PrimitiveType::Integer))
}

/// Drops enum entries that the declared types exclude, and reports whether
/// the schema changed.
pub fn simple_enum_cleanup(schema: Json) -> (r: (Json, bool))
    ensures
        r.0@ == spec_simple_enum_cleanup(schema@),
        r.1 == (r.0@ != schema@),
{
    let snap = deep_clone(&schema);
    match schema {
        Json::Obj(mut m) => {
            proof {
                lemma_jv_obj(m);
            }
            let b = PrimitiveTypesBitMap::from_schema_value(obj_get(&m, "type"));
            if b.is_empty() {
                let out = Json::Obj(m);
                proof {
                    lemma_jv_obj(out->Obj_0);
                }
                return (out, false);
            }
            let kept: Option<Vec<Json>> = match obj_get(&m, "enum") {
                Some(Json::Arr(ev)) => {
                    if ev.len() == 0 {
                        None
                    } else {
                        let ghost av = avs(ev@);
                        proof {
                            lemma_jv_arr(*ev);
                        }
                        let mut kept: Vec<Json> = Vec::new();
                        proof {
                            reveal(Seq::filter);
                            assert(av.take(0) =~= Seq::<JsonV>::empty());
                            assert(avs(kept@) =~= spec_enum_kept(b, av.take(0)));
                        }
                        let mut i: usize = 0;
                        while i < ev.len()
                            invariant
                                0 <= i <= ev@.len(),
                                av == avs(ev@),
                                avs(kept@) == spec_enum_kept(b, av.take(i as int)),
                            decreases ev@.len() - i,
                        {
                            proof {
                                reveal(Seq::filter);
                                assert(av.take(i + 1).drop_last() =~= av.take(i as int));
                                assert(av.take(i + 1).last() == jv(ev@[i as int]));
                            }
                            if enum_entry_fits(b, &ev[i]) {
                                let e = deep_clone(&ev[i]);
                                kept.push(e);
                                proof {
                                    assert(avs(kept@) =~= spec_enum_kept(b, av.take(i as int)).push(
                                        jv(ev@[i as int]),
                                    ));
                                    assert(spec_enum_kept(b, av.take(i + 1)) == spec_enum_kept(
                                        b,
                                        av.take(i as int),
                                    ).push(jv(ev@[i as int])));
                                }
                            } else {
                                proof {
                                    assert(spec_enum_kept(b, av.take(i + 1)) == spec_enum_kept(
                                        b,
                                        av.take(i as int),
                                    ));
                                }
                            }
                            i += 1;
                        }
                        proof {
                            assert(av.take(ev@.len() as int) =~= av);
                        }
                        if kept.len() == ev.len() {
                            None
                        } else {
                            Some(kept)
                        }
                    }
                },
                _ => None,
            };
            match kept {
                None => {
                    let out = Json::Obj(m);
                    proof {
                        lemma_jv_obj(out->Obj_0);
                    }
                    (out, false)
                },
                Some(kept) => {
                    if kept.len() == 0 {
                        let out = Json::Bool(false);
                        let changed = !json_eq(&out, &snap);
                        (out, changed)
                    } else {
                        proof {
                            lemma_jv_arr(kept);
                        }
                        obj_set(&mut m, "enum", Json::Arr(kept));
                        let out = Json::Obj(m);
                        proof {
                            lemma_jv_obj(out->Obj_0);
                        }
                        let changed = !json_eq(&out, &snap);
                        (out, changed)
                    }
                },
            }
        },
        other => (other, false),
    }
}

} // verus!
