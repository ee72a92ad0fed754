//! Shared helpers: schema classification and keyword housekeeping.

pub mod intersect;
pub mod types;

use crate::constants::{is_keyword, spec_is_keyword, spec_keywords, strs};
use crate::json::{
    deep_clone, jv, kvs, obj_remove, obj_set, okv_get, okv_remove, okv_set, Json, JsonV,
};
use crate::helpers::types::{spec_type_value_of_types, PrimitiveTypesBitMap};
use vstd::prelude::*;

verus! {

/// Whether a value is the rejecting schema: the boolean `false`.
pub open spec fn spec_is_false_schema(v: JsonV) -> bool {
    v == JsonV::Bool(false)
}

/// Whether a value is an accepting schema: the boolean `true` or an object
/// with no keys.
pub open spec fn spec_is_true_schema(v: JsonV) -> bool {
    match v {
        JsonV::Bool(b) => b,
        JsonV::Obj(m) => m.len() == 0,
        _ => false,
    }
}

/// The entries after writing the canonical `type` value of `b`: set when a
/// value is called for, removed otherwise.
pub open spec fn spec_type_with(m: Seq<(Seq<char>, JsonV)>, b: PrimitiveTypesBitMap) -> Seq<
    (Seq<char>, JsonV),
> {
    match spec_type_value_of_types(b) {
        Some(v) => okv_set(m, "type"@, v),
        None => okv_remove(m, "type"@),
    }
}

/// Writes the canonical `type` value of `b` into the object, or removes the
/// keyword when the set is empty or full.
pub fn type_with(m: &mut Vec<(String, Json)>, b: PrimitiveTypesBitMap)
    ensures
        kvs(final(m)@) == spec_type_with(kvs(old(m)@), b),
{
    match b.to_schema_value() {
        Some(v) => obj_set(m, "type", v),
        None => {
            let _ = obj_remove(m, "type");
        },
    }
}

/// The entries kept by `preserve_keys`: an entry survives when its key is
/// not a known keyword or stands in the keep list.
pub open spec fn okv_keep_listed(m: Seq<(Seq<char>, JsonV)>, keep: Seq<Seq<char>>) -> Seq<
    (Seq<char>, JsonV),
> {
    m.filter(|p: (Seq<char>, JsonV)| !spec_is_keyword(p.0) || keep.contains(p.0))
}

/// Removes every known keyword that is not named in `keys_to_preserve`;
/// unknown keys always survive.
pub fn preserve_keys(map: &mut Vec<(String, Json)>, keys_to_preserve: &Vec<String>)
    ensures
        kvs(final(map)@) == okv_keep_listed(kvs(old(map)@), strs(keys_to_preserve@)),
{
    let ghost m0 = kvs(old(map)@);
    let ghost kl = strs(keys_to_preserve@);
    let mut out: Vec<(String, Json)> = Vec::new();
    proof {
        reveal(Seq::filter);
        assert(m0.take(0) =~= Seq::<(Seq<char>, JsonV)>::empty());
        assert(kvs(out@) =~= okv_keep_listed(m0.take(0), kl));
    }
    let mut i: usize = 0;
    while i < map.len()
        invariant
            0 <= i <= map@.len(),
            m0 == kvs(map@),
            kvs(out@) == okv_keep_listed(m0.take(i as int), kl),
            kl == strs(keys_to_preserve@),
        decreases map@.len() - i,
    {
        proof {
            reveal(Seq::filter);
            assert(m0.take(i + 1).drop_last() =~= m0.take(i as int));
            assert(m0.take(i + 1).last() == m0[i as int]);
            assert(m0[i as int] == (map@[i as int].0@, jv(map@[i as int].1)));
        }
        let keep = !is_keyword(map[i].0.as_str()) || crate::constants::str_list_contains(
            keys_to_preserve,
            map[i].0.as_str(),
        );
        proof {
            assert(keep == (!spec_is_keyword(m0[i as int].0) || kl.contains(m0[i as int].0)));
        }
        if keep {
            let key = map[i].0.clone();
            let v = deep_clone(&map[i].1);
            out.push((key, v));
            proof {
                reveal(Seq::filter);
                assert(kvs(out@) =~= okv_keep_listed(m0.take(i as int), kl).push(m0[i as int]));
                assert(okv_keep_listed(m0.take(i + 1), kl) == okv_keep_listed(
                    m0.take(i as int),
                    kl,
                ).push(m0[i as int]));
            }
        } else {
            proof {
                reveal(Seq::filter);
                assert(okv_keep_listed(m0.take(i + 1), kl) == okv_keep_listed(
                    m0.take(i as int),
                    kl,
                ));
            }
        }
        i += 1;
    }
    proof {
        assert(m0.take(map@.len() as int) =~= m0);
    }
    *map = out;
}

/// The keywords among the first `upto` of the table that are not in
/// `preserve`, in table order.
pub open spec fn spec_kw_filter(preserve: Seq<Seq<char>>, upto: int) -> Seq<Seq<char>> {
    spec_keywords().take(upto).filter(|k: Seq<char>| !preserve.contains(k))
}

/// The keywords of the table that are not in `preserve`, in table order.
pub open spec fn spec_keywords_to_remove(preserve: Seq<Seq<char>>) -> Seq<Seq<char>> {
    spec_kw_filter(preserve, spec_keywords().len() as int)
}

/// The list of known keywords to drop so that exactly `keywords_to_preserve`
/// survive: every keyword of the table that is not named there, in table
/// order.  Unknown names in the input are passed over, so keywords of later
/// drafts are never scheduled for removal.
pub fn keywords_to_remove(keywords_to_preserve: &Vec<String>) -> (r: Vec<String>)
    ensures
        strs(r@) == spec_keywords_to_remove(strs(keywords_to_preserve@)),
{
    let ghost kl = strs(keywords_to_preserve@);
    let table = crate::constants::keywords();
    let mut out: Vec<String> = Vec::new();
    proof {
        reveal(Seq::filter);
        assert(spec_keywords().take(0) =~= Seq::<Seq<char>>::empty());
        assert(strs(out@) =~= spec_kw_filter(kl, 0));
    }
    let mut i: usize = 0;
    while i < table.len()
        invariant
            0 <= i <= table@.len(),
            strs(table@) == spec_keywords(),
            kl == strs(keywords_to_preserve@),
            strs(out@) == spec_kw_filter(kl, i as int),
        decreases table@.len() - i,
    {
        proof {
            reveal(Seq::filter);
            assert(spec_keywords().take(i + 1).drop_last() =~= spec_keywords().take(i as int));
            assert(spec_keywords().take(i + 1).last() == spec_keywords()[i as int]);
            assert(strs(table@)[i as int] == table@[i as int]@);
            assert(table@[i as int]@ == spec_keywords()[i as int]);
        }
        if !crate::constants::str_list_contains(keywords_to_preserve, table[i].as_str()) {
            let k = table[i].clone();
            out.push(k);
            proof {
                reveal(Seq::filter);
                assert(strs(out@) =~= spec_kw_filter(kl, i as int).push(
                    spec_keywords()[i as int],
                ));
                assert(spec_kw_filter(kl, i + 1) == spec_kw_filter(kl, i as int).push(
                    spec_keywords()[i as int],
                ));
            }
        } else {
            proof {
                reveal(Seq::filter);
                assert(spec_kw_filter(kl, i + 1) == spec_kw_filter(kl, i as int));
            }
        }
        i += 1;
    }
    proof {
        assert(spec_keywords().take(spec_keywords().len() as int) =~= spec_keywords());
    }
    out
}

/// Appends clones of all entries of `src` to `dst`.
pub fn push_all(dst: &mut Vec<String>, src: &Vec<String>)
    ensures
        strs(final(dst)@) == strs(old(dst)@) + strs(src@),
{
    let ghost n0 = old(dst)@.len() as int;
    let mut i: usize = 0;
    while i < src.len()
        invariant
            0 <= i <= src@.len(),
            n0 == old(dst)@.len() as int,
            dst@.len() == n0 + i,
            forall|j: int| #![trigger dst@[j]] 0 <= j < n0 ==> dst@[j] == old(dst)@[j],
            forall|j: int| #![trigger dst@[j]] n0 <= j < n0 + i ==> dst@[j]@ == src@[j - n0]@,
        decreases src@.len() - i,
    {
        let s = src[i].clone();
        let ghost prev = dst@;
        let ghost sv = s;
        dst.push(s);
        proof {
            assert(dst@ == prev.push(sv));
            assert(prev.len() == n0 + i);
            assert forall|j: int| 0 <= j < n0 implies dst@[j] == old(dst)@[j] by {
                assert(prev.push(sv)[j] == prev[j]);
            }
            assert forall|j: int| n0 <= j < n0 + i + 1 implies dst@[j]@ == src@[j - n0]@ by {
                if j < n0 + i {
                    assert(prev.push(sv)[j] == prev[j]);
                } else {
                    assert(prev.push(sv)[prev.len() as int] == sv);
                }
            }
        }
        i += 1;
    }
    proof {
        assert(strs(dst@) =~= strs(old(dst)@) + strs(src@));
    }
}

/// Whether the schema is the rejecting schema.
pub fn is_false_schema(schema: &Json) -> (r: bool)
    ensures
        r == spec_is_false_schema(schema@),
{
    match schema {
        Json::Bool(b) => !*b,
        _ => false,
    }
}

/// Whether the schema accepts everything.
pub fn is_true_schema(schema: &Json) -> (r: bool)
    ensures
        r == spec_is_true_schema(schema@),
{
    match schema {
        Json::Bool(b) => *b,
        Json::Obj(m) => m.len() == 0,
        _ => false,
    }
}

} // verus!
