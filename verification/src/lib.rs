//! A JSON Schema simplifier.
//!
//! The crate rewrites a JSON Schema document (Draft 4/6/7) into a smaller
//! schema that accepts exactly the same set of JSON instances, by dropping
//! keywords that can never fire for the declared types, collapsing
//! contradictory bound pairs into the rejecting schema, intersecting the
//! arms of conjunctions, and hoisting constraints out of `allOf` arms.
//!
//! Schemas are values of [`json::Json`]; every rewrite is specified against
//! the mathematical abstraction [`json::JsonV`] of those values.  The
//! proofs pin each function to its closed-form specification — what the
//! rewrite does to the keyword map — and to an exact changed-flag; that
//! every specified rewrite preserves the set of accepted instances is a
//! property of those spec functions themselves, to be judged by reading
//! them, since stating it would take a full semantics of JSON Schema
//! validation.

pub mod constants;
pub mod helpers;
pub mod json;
pub mod keywords;
pub mod num;
pub mod primitive_type;

use crate::json::{take_json, Json, JsonV};
use crate::keywords::{
    spec_update_entries, spec_update_list, spec_update_map, spec_update_schema, spec_update_sub,
    update_schema,
};
use vstd::prelude::*;

verus! {

/// The bound on whole-tree passes; past it the current value is returned.
pub const MAX_UPDATE_SCHEMA_ITERATIONS: usize = 100;

/// The value after up to `fuel` driver passes: the current value once a
/// pass reports no change, else the value when the fuel runs out.
pub open spec fn spec_simplify_bounded(s: JsonV, fuel: nat) -> JsonV
    decreases fuel,
{
    if fuel == 0 {
        s
    } else {
        let t = spec_update_schema(s);
        if !t.1 {
            t.0
        } else {
            spec_simplify_bounded(t.0, (fuel - 1) as nat)
        }
    }
}

/// The simplified form of a schema.
pub open spec fn spec_simplify(s: JsonV) -> JsonV {
    spec_simplify_bounded(s, MAX_UPDATE_SCHEMA_ITERATIONS as nat)
}

/// Rewrites the schema in place into its simplified form.
pub fn jsonschema_equivalent_ref(schema: &mut Json)
    ensures
        final(schema)@ == spec_simplify(old(schema)@),
{
    let ghost s0 = old(schema)@;
    let mut cur = take_json(schema);
    let mut i: usize = 0;
    while i < MAX_UPDATE_SCHEMA_ITERATIONS
        invariant
            0 <= i <= MAX_UPDATE_SCHEMA_ITERATIONS,
            s0 == old(schema)@,
            spec_simplify(s0) == spec_simplify_bounded(
                cur@,
                (MAX_UPDATE_SCHEMA_ITERATIONS - i) as nat,
            ),
        decreases MAX_UPDATE_SCHEMA_ITERATIONS - i,
    {
        let (nv, changed) = update_schema(&cur);
        if !changed {
            proof {
                assert((MAX_UPDATE_SCHEMA_ITERATIONS - i) as nat != 0);
                assert(spec_simplify_bounded(cur@, (MAX_UPDATE_SCHEMA_ITERATIONS - i) as nat)
                    == nv@);
            }
            *schema = nv;
            return ;
        }
        cur = nv;
        i += 1;
    }
    *schema = cur;
}

/// The simplified form of a schema, consuming and returning it.
pub fn jsonschema_equivalent(schema: Json) -> (r: Json)
    ensures
        r@ == spec_simplify(schema@),
{
    let mut s = schema;
    jsonschema_equivalent_ref(&mut s);
    s
}

/// A driver pass that reports no change leaves the value as it was: the
/// change flags of the rules are sound, so a clear flag really is a fixed
/// point.
#[verifier::rlimit(100)]
#[verifier::spinoff_prover]
pub proof fn lemma_update_fixed_point(s: JsonV)
    ensures
        !spec_update_schema(s).1 ==> spec_update_schema(s).0 == s,
    decreases s, 0int,
{
    if crate::helpers::spec_is_true_schema(s) {
    } else {
        match s {
            JsonV::Obj(m) => {
                if !spec_update_schema(s).1 {
                    lemma_entries_fixed_point(m);
                    assert(spec_update_entries(m).0 =~= m);
                }
            },
            _ => {},
        }
    }
}

/// Entries whose pass reports no change are unchanged.
pub proof fn lemma_entries_fixed_point(m: Seq<(Seq<char>, JsonV)>)
    ensures
        !spec_update_entries(m).1 ==> spec_update_entries(m).0 =~= m,
    decreases m, 2int,
{
    if !spec_update_entries(m).1 {
        assert forall|j: int| 0 <= j < m.len() implies spec_update_entries(m).0[j] == m[j] by {
            lemma_sub_fixed_point(m[j].0, m[j].1);
            assert(spec_update_entries(m).0[j] == (m[j].0, spec_update_sub(m[j].0, m[j].1).0));
        }
    }
}

/// A sub-schema pass that reports no change leaves the value as it was.
pub proof fn lemma_sub_fixed_point(k: Seq<char>, v: JsonV)
    ensures
        !spec_update_sub(k, v).1 ==> spec_update_sub(k, v).0 == v,
    decreases v, 1int,
{
    if !keywords::spec_is_subschema_kw(k) {
    } else if keywords::spec_is_direct_sub(k) || (k == "items"@ && !(v is Arr)) {
        lemma_update_fixed_point(v);
    } else if (keywords::spec_is_list_sub(k) || k == "items"@) && v is Arr {
        if !spec_update_sub(k, v).1 {
            lemma_list_fixed_point(v->Arr_0);
            assert(spec_update_list(v->Arr_0).0 =~= v->Arr_0);
        }
    } else if keywords::spec_is_map_sub(k) && v is Obj {
        if !spec_update_sub(k, v).1 {
            lemma_map_fixed_point(v->Obj_0);
            assert(spec_update_map(v->Obj_0).0 =~= v->Obj_0);
        }
    } else {
    }
}

/// Map values whose pass reports no change are unchanged.
pub proof fn lemma_map_fixed_point(mo: Seq<(Seq<char>, JsonV)>)
    ensures
        !spec_update_map(mo).1 ==> spec_update_map(mo).0 =~= mo,
    decreases mo, 2int,
{
    if !spec_update_map(mo).1 {
        assert forall|j: int| 0 <= j < mo.len() implies spec_update_map(mo).0[j] == mo[j] by {
            lemma_update_fixed_point(mo[j].1);
            assert(spec_update_map(mo).0[j] == (mo[j].0, spec_update_schema(mo[j].1).0));
        }
    }
}

/// List elements whose pass reports no change are unchanged.
pub proof fn lemma_list_fixed_point(a: Seq<JsonV>)
    ensures
        !spec_update_list(a).1 ==> spec_update_list(a).0 =~= a,
    decreases a, 2int,
{
    if !spec_update_list(a).1 {
        assert forall|j: int| 0 <= j < a.len() implies spec_update_list(a).0[j] == a[j] by {
            lemma_update_fixed_point(a[j]);
            assert(spec_update_list(a).0[j] == spec_update_schema(a[j]).0);
        }
    }
}

/// Simplification is idempotent once it converges: when the result is a
/// fixed point of the driver — which holds whenever the pass bound was not
/// exhausted — simplifying it again returns it unchanged.
pub proof fn lemma_simplify_idempotent(s: JsonV)
    ensures
        !spec_update_schema(spec_simplify(s)).1 ==> spec_simplify(spec_simplify(s))
            == spec_simplify(s),
{
    let r = spec_simplify(s);
    if !spec_update_schema(r).1 {
        lemma_update_fixed_point(r);
        assert(spec_simplify_bounded(r, MAX_UPDATE_SCHEMA_ITERATIONS as nat)
            == spec_update_schema(r).0);
    }
}

} // verus!
