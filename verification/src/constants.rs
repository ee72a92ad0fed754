//! The static tables of JSON Schema keywords for Draft 4, 6 and 7.

use crate::json::str_eq;
use vstd::prelude::*;

verus! {

/// The abstraction of a list of strings.
pub open spec fn strs(v: Seq<String>) -> Seq<Seq<char>> {
    Seq::new(v.len(), |i: int| v[i]@)
}

/// The 35 keywords of Draft 4, 6 and 7, in their canonical order.
pub open spec fn spec_keywords() -> Seq<Seq<char>> {
    seq![
        "additionalItems"@,
        "additionalProperties"@,
        "allOf"@,
        "anyOf"@,
        "const"@,
        "contains"@,
        "contentEncoding"@,
        "contentMediaType"@,
        "dependencies"@,
        "else"@,
        "enum"@,
        "exclusiveMaximum"@,
        "exclusiveMinimum"@,
        "format"@,
        "if"@,
        "items"@,
        "maxItems"@,
        "maxLength"@,
        "maxProperties"@,
        "maximum"@,
        "minItems"@,
        "minLength"@,
        "minProperties"@,
        "minimum"@,
        "multipleOf"@,
        "not"@,
        "oneOf"@,
        "pattern"@,
        "patternProperties"@,
        "properties"@,
        "propertyNames"@,
        "required"@,
        "then"@,
        "type"@,
        "uniqueItems"@,
    ]
}

/// The keyword table as owned strings, in the canonical order.
pub fn keywords() -> (r: Vec<String>)
    ensures
        strs(r@) == spec_keywords(),
{
    let mut v: Vec<String> = Vec::new();
    v.push(String::from_str("additionalItems"));
    v.push(String::from_str("additionalProperties"));
    v.push(String::from_str("allOf"));
    v.push(String::from_str("anyOf"));
    v.push(String::from_str("const"));
    v.push(String::from_str("contains"));
    v.push(String::from_str("contentEncoding"));
    v.push(String::from_str("contentMediaType"));
    v.push(String::from_str("dependencies"));
    v.push(String::from_str("else"));
    v.push(String::from_str("enum"));
    v.push(String::from_str("exclusiveMaximum"));
    v.push(String::from_str("exclusiveMinimum"));
    v.push(String::from_str("format"));
    v.push(String::from_str("if"));
    v.push(String::from_str("items"));
    v.push(String::from_str("maxItems"));
    v.push(String::from_str("maxLength"));
    v.push(String::from_str("maxProperties"));
    v.push(String::from_str("maximum"));
    v.push(String::from_str("minItems"));
    v.push(String::from_str("minLength"));
    v.push(String::from_str("minProperties"));
    v.push(String::from_str("minimum"));
    v.push(String::from_str("multipleOf"));
    v.push(String::from_str("not"));
    v.push(String::from_str("oneOf"));
    v.push(String::from_str("pattern"));
    v.push(String::from_str("patternProperties"));
    v.push(String::from_str("properties"));
    v.push(String::from_str("propertyNames"));
    v.push(String::from_str("required"));
    v.push(String::from_str("then"));
    v.push(String::from_str("type"));
    v.push(String::from_str("uniqueItems"));
    proof {
        assert(strs(v@) =~= spec_keywords());
    }
    v
}

/// Whether `k` names an entry of a string list.
pub fn str_list_contains(v: &Vec<String>, k: &str) -> (r: bool)
    ensures
        r == strs(v@).contains(k@),
{
    let mut i: usize = 0;
    while i < v.len()
        invariant
            0 <= i <= v@.len(),
            forall|j: int| 0 <= j < i ==> strs(v@)[j] != k@,
        decreases v@.len() - i,
    {
        if str_eq(v[i].as_str(), k) {
            proof {
                assert(strs(v@)[i as int] == k@);
            }
            return true;
        }
        i += 1;
    }
    proof {
        assert(forall|j: int| 0 <= j < strs(v@).len() ==> strs(v@)[j] != k@);
    }
    false
}

/// Whether `k` is a known JSON Schema keyword.
pub open spec fn spec_is_keyword(k: Seq<char>) -> bool {
    spec_keywords().contains(k)
}

/// Whether `k` is a known JSON Schema keyword.
pub fn is_keyword(k: &str) -> (r: bool)
    ensures
        r == spec_is_keyword(k@),
{
    let table = keywords();
    str_list_contains(&table, k)
}

} // verus!
