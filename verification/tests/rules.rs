//! Per-rule behavior on concrete schemas.

use jsonschema_equivalent::json::{deep_clone, json_eq, Json, Number};
use jsonschema_equivalent::keywords::additional_items::simplify_additional_items;
use jsonschema_equivalent::keywords::additional_properties::simplify_additional_properties;
use jsonschema_equivalent::keywords::all_of::{flatten_all_of, simplify_all_of};
use jsonschema_equivalent::keywords::any_of::simplify_any_of;
use jsonschema_equivalent::keywords::const_::simple_const_cleanup;
use jsonschema_equivalent::keywords::enum_::simple_enum_cleanup;
use jsonschema_equivalent::keywords::if_::simplify_if;
use jsonschema_equivalent::keywords::ignore_keywords::{
    omit_keywords_that_do_not_alter_schema_selectivity, remove_keywords_in_must_ignore_groups,
};
use jsonschema_equivalent::keywords::items::simplify_items;
use jsonschema_equivalent::keywords::min_max::update_max_min_related_keywords;
use jsonschema_equivalent::keywords::property_names::optimise_property_names;
use jsonschema_equivalent::keywords::required::remove_empty_required;
use jsonschema_equivalent::keywords::type_::{
    optimise_keyword_type, remove_extraneous_keys_keyword_type,
};

fn obj(entries: Vec<(&str, Json)>) -> Json {
    Json::Obj(entries.into_iter().map(|(k, v)| (k.to_string(), v)).collect())
}

fn s(x: &str) -> Json {
    Json::Str(x.to_string())
}

fn n(x: u64) -> Json {
    Json::Num(Number::PosInt(x))
}

fn arr(v: Vec<Json>) -> Json {
    Json::Arr(v)
}

fn check(rule: fn(Json) -> (Json, bool), input: Json, expected: Json) {
    let snapshot = deep_clone(&input);
    let (out, changed) = rule(input);
    assert!(
        json_eq(&out, &expected),
        "rule produced a different schema than expected"
    );
    assert_eq!(changed, !json_eq(&out, &snapshot));
}

#[test]
fn test_extraneous_keys_are_pruned_for_declared_type() {
    check(
        remove_extraneous_keys_keyword_type,
        obj(vec![("type", s("string")), ("minimum", n(1))]),
        obj(vec![("type", s("string"))]),
    );
}

#[test]
fn test_extraneous_keys_stay_for_matching_type() {
    check(
        remove_extraneous_keys_keyword_type,
        obj(vec![("type", s("array")), ("minItems", n(1))]),
        obj(vec![("type", s("array")), ("minItems", n(1))]),
    );
    check(
        remove_extraneous_keys_keyword_type,
        obj(vec![("type", arr(vec![s("number"), s("string")])), ("minLength", n(1)), (
            "minItems",
            n(1),
        )]),
        obj(vec![("type", arr(vec![s("number"), s("string")])), ("minLength", n(1))]),
    );
}

#[test]
fn test_all_of_arms_intersect_into_the_outer_schema() {
    check(
        flatten_all_of,
        obj(vec![("allOf", arr(vec![
            obj(vec![("type", s("integer"))]),
            obj(vec![("type", s("number"))]),
        ]))]),
        obj(vec![("type", s("integer"))]),
    );
}

#[test]
fn test_all_of_flatten_absorbs_fresh_keywords() {
    check(
        flatten_all_of,
        obj(vec![("allOf", arr(vec![obj(vec![("type", s("string")), (
            "minLength",
            n(1),
        )])]))]),
        obj(vec![("type", s("string")), ("minLength", n(1))]),
    );
}

#[test]
fn test_all_of_flatten_keeps_partial_arms() {
    let input = obj(vec![("oneOf", arr(vec![Json::Bool(false)])), ("allOf", arr(vec![obj(
        vec![("oneOf", arr(vec![Json::Bool(true)]))],
    )]))]);
    let expected = obj(vec![("oneOf", arr(vec![Json::Bool(false)])), ("allOf", arr(vec![obj(
        vec![("oneOf", arr(vec![Json::Bool(true)]))],
    )]))]);
    check(flatten_all_of, input, expected);
}

#[test]
fn test_all_of_with_disjoint_types_rejects_everything() {
    check(
        simplify_all_of,
        obj(vec![("allOf", arr(vec![
            obj(vec![("type", s("string"))]),
            obj(vec![("type", s("number"))]),
        ]))]),
        Json::Bool(false),
    );
}

#[test]
fn test_all_of_narrows_arm_types_to_the_common_types() {
    check(
        simplify_all_of,
        obj(vec![("allOf", arr(vec![
            obj(vec![("type", s("integer"))]),
            obj(vec![("type", s("number"))]),
        ]))]),
        obj(vec![("allOf", arr(vec![
            obj(vec![("type", s("integer"))]),
            obj(vec![("type", s("integer"))]),
        ]))]),
    );
    check(
        simplify_all_of,
        obj(vec![("type", s("object")), ("allOf", arr(vec![obj(vec![])]))]),
        obj(vec![("type", s("object"))]),
    );
    check(
        simplify_all_of,
        obj(vec![("allOf", arr(vec![Json::Bool(false)]))]),
        Json::Bool(false),
    );
    check(
        simplify_all_of,
        obj(vec![("type", s("boolean")), ("allOf", arr(vec![obj(vec![(
            "type",
            s("integer"),
        )])]))]),
        Json::Bool(false),
    );
}

#[test]
fn test_unsatisfiable_bound_pair_rejects_everything() {
    check(
        update_max_min_related_keywords,
        obj(vec![("type", s("number")), ("maximum", n(1)), ("minimum", n(2))]),
        Json::Bool(false),
    );
}

#[test]
fn test_bound_pair_removes_only_the_impossible_type() {
    check(
        update_max_min_related_keywords,
        obj(vec![("type", arr(vec![s("integer"), s("null")])), ("maximum", n(1)), (
            "minimum",
            n(2),
        )]),
        obj(vec![("type", s("null"))]),
    );
    check(
        update_max_min_related_keywords,
        obj(vec![("type", s("null")), ("maximum", n(1)), ("minimum", n(2))]),
        obj(vec![("type", s("null")), ("maximum", n(1)), ("minimum", n(2))]),
    );
    check(
        update_max_min_related_keywords,
        obj(vec![("type", s("array")), ("maxItems", n(1)), ("minItems", n(2))]),
        Json::Bool(false),
    );
}

#[test]
fn test_bound_pair_compares_scaled_binary_values_exactly() {
    // maximum = 3/2, minimum = 2: the pair is unsatisfiable for numbers.
    let half_three = Json::Num(Number::Binary(false, 3, -1));
    check(
        update_max_min_related_keywords,
        obj(vec![("type", s("number")), ("maximum", half_three), ("minimum", n(2))]),
        Json::Bool(false),
    );
    // maximum = 5/2, minimum = 2 is satisfiable.
    let half_five = Json::Num(Number::Binary(false, 5, -1));
    check(
        update_max_min_related_keywords,
        obj(vec![("type", s("number")), ("maximum", deep_clone(&half_five)), ("minimum", n(2))]),
        obj(vec![("type", s("number")), ("maximum", half_five), ("minimum", n(2))]),
    );
}

#[test]
fn test_constant_if_keeps_only_the_live_branch() {
    check(
        simplify_if,
        obj(vec![("if", Json::Bool(false)), ("then", obj(vec![("minLength", n(0))])), (
            "else",
            obj(vec![("maxLength", n(0))]),
        )]),
        obj(vec![("allOf", arr(vec![obj(vec![("maxLength", n(0))])]))]),
    );
    check(
        simplify_if,
        obj(vec![("if", Json::Bool(true)), ("then", obj(vec![("minLength", n(0))])), (
            "else",
            obj(vec![("maxLength", n(0))]),
        )]),
        obj(vec![("allOf", arr(vec![obj(vec![("minLength", n(0))])]))]),
    );
    check(
        simplify_if,
        obj(vec![("if", Json::Bool(false))]),
        obj(vec![]),
    );
    check(
        simplify_if,
        obj(vec![("if", obj(vec![("type", s("string"))]))]),
        obj(vec![]),
    );
}

#[test]
fn test_non_string_property_names_forbid_properties() {
    check(
        optimise_property_names,
        obj(vec![("type", s("object")), ("propertyNames", obj(vec![("type", s("number"))]))]),
        obj(vec![("type", s("object")), ("maxProperties", n(0))]),
    );
    check(
        optimise_property_names,
        obj(vec![("type", s("object")), ("minProperties", n(1)), (
            "propertyNames",
            Json::Bool(false),
        )]),
        Json::Bool(false),
    );
    check(
        optimise_property_names,
        obj(vec![("type", s("object")), ("propertyNames", obj(vec![("type", s("string"))]))]),
        obj(vec![("type", s("object"))]),
    );
    check(
        optimise_property_names,
        obj(vec![("type", s("object")), ("propertyNames", obj(vec![("minLength", n(1))]))]),
        obj(vec![("type", s("object")), ("propertyNames", obj(vec![("minLength", n(1)), (
            "type",
            s("string"),
        )]))]),
    );
    check(
        optimise_property_names,
        obj(vec![("type", s("integer")), ("propertyNames", obj(vec![("type", s("string")), (
            "minLength",
            n(1),
        )]))]),
        obj(vec![("type", s("integer"))]),
    );
}

#[test]
fn test_enum_entries_outside_the_declared_type_are_dropped() {
    check(
        simple_enum_cleanup,
        obj(vec![("enum", arr(vec![n(1), n(2), n(3)])), ("type", s("string"))]),
        Json::Bool(false),
    );
    check(
        simple_enum_cleanup,
        obj(vec![("enum", arr(vec![s("0"), s("1"), n(2)])), ("type", s("string"))]),
        obj(vec![("enum", arr(vec![s("0"), s("1")])), ("type", s("string"))]),
    );
    check(
        simple_enum_cleanup,
        obj(vec![("enum", arr(vec![n(1), n(2)])), ("type", s("integer"))]),
        obj(vec![("enum", arr(vec![n(1), n(2)])), ("type", s("integer"))]),
    );
}

#[test]
fn test_rejecting_additional_items_tighten_max_items() {
    check(
        simplify_additional_items,
        obj(vec![("additionalItems", Json::Bool(false)), ("items", arr(vec![
            Json::Bool(true),
            Json::Bool(true),
            Json::Bool(true),
        ]))]),
        obj(vec![("items", arr(vec![Json::Bool(true), Json::Bool(true), Json::Bool(true)])), (
            "maxItems",
            n(3),
        )]),
    );
    check(
        simplify_additional_items,
        obj(vec![("additionalItems", Json::Bool(false)), ("items", arr(vec![
            Json::Bool(true),
            Json::Bool(true),
        ])), ("maxItems", n(4))]),
        obj(vec![("items", arr(vec![Json::Bool(true), Json::Bool(true)])), ("maxItems", n(2))]),
    );
    check(
        simplify_additional_items,
        obj(vec![("additionalItems", Json::Bool(true))]),
        obj(vec![]),
    );
    check(
        simplify_additional_items,
        obj(vec![("additionalItems", obj(vec![("type", s("string"))])), (
            "items",
            obj(vec![("type", s("boolean"))]),
        )]),
        obj(vec![("items", obj(vec![("type", s("boolean"))]))]),
    );
}

#[test]
fn test_accepting_additional_properties_are_dropped() {
    check(
        simplify_additional_properties,
        obj(vec![("additionalProperties", Json::Bool(true))]),
        obj(vec![]),
    );
    check(
        simplify_additional_properties,
        obj(vec![("additionalProperties", obj(vec![]))]),
        obj(vec![]),
    );
    check(
        simplify_additional_properties,
        obj(vec![("additionalProperties", Json::Bool(false))]),
        obj(vec![("additionalProperties", Json::Bool(false))]),
    );
}

#[test]
fn test_positional_items_truncate_to_max_items() {
    check(
        simplify_items,
        obj(vec![("items", arr(vec![
            obj(vec![("type", s("array"))]),
            obj(vec![("type", s("boolean"))]),
            obj(vec![("type", s("integer"))]),
        ])), ("maxItems", n(2))]),
        obj(vec![("items", arr(vec![
            obj(vec![("type", s("array"))]),
            obj(vec![("type", s("boolean"))]),
        ])), ("maxItems", n(2))]),
    );
    check(
        simplify_items,
        obj(vec![("items", Json::Bool(true))]),
        obj(vec![("items", Json::Bool(true))]),
    );
}

#[test]
fn test_const_narrows_the_declared_type() {
    check(
        simple_const_cleanup,
        obj(vec![("const", s("some-text")), ("type", arr(vec![s("boolean"), s("string")]))]),
        obj(vec![("const", s("some-text")), ("type", s("string"))]),
    );
    check(
        simple_const_cleanup,
        obj(vec![("const", s("string")), ("type", s("boolean"))]),
        Json::Bool(false),
    );
    check(
        simple_const_cleanup,
        obj(vec![("const", n(1)), ("type", arr(vec![s("array"), s("integer")]))]),
        obj(vec![("const", n(1)), ("type", s("integer"))]),
    );
    check(
        simple_const_cleanup,
        obj(vec![("const", n(1)), ("type", arr(vec![s("array"), s("number")]))]),
        obj(vec![("const", n(1)), ("type", s("number"))]),
    );
}

#[test]
fn test_orphaned_and_neutral_keywords_are_dropped() {
    check(
        remove_keywords_in_must_ignore_groups,
        obj(vec![("else", Json::Bool(true))]),
        obj(vec![]),
    );
    check(
        remove_keywords_in_must_ignore_groups,
        obj(vec![("then", Json::Bool(true)), ("if", Json::Bool(true))]),
        obj(vec![("then", Json::Bool(true)), ("if", Json::Bool(true))]),
    );
    check(
        remove_keywords_in_must_ignore_groups,
        obj(vec![("additionalItems", Json::Bool(true))]),
        obj(vec![]),
    );
    check(
        omit_keywords_that_do_not_alter_schema_selectivity,
        obj(vec![("minItems", n(0)), ("minLength", n(1)), ("uniqueItems", Json::Bool(false))]),
        obj(vec![("minLength", n(1))]),
    );
    check(
        omit_keywords_that_do_not_alter_schema_selectivity,
        obj(vec![("dependencies", obj(vec![])), ("required", arr(vec![]))]),
        obj(vec![]),
    );
}

#[test]
fn test_empty_required_is_dropped() {
    check(remove_empty_required, obj(vec![("required", arr(vec![]))]), obj(vec![]));
    check(
        remove_empty_required,
        obj(vec![("required", arr(vec![s("key")]))]),
        obj(vec![("required", arr(vec![s("key")]))]),
    );
}

#[test]
fn test_type_keyword_is_canonicalized() {
    // A type value admitting nothing makes the schema reject everything.
    check(optimise_keyword_type, obj(vec![("type", arr(vec![]))]), Json::Bool(false));
    check(optimise_keyword_type, obj(vec![("type", s("a-wrong-type"))]), Json::Bool(false));
    check(
        optimise_keyword_type,
        obj(vec![("type", arr(vec![s("string")]))]),
        obj(vec![("type", s("string"))]),
    );
    check(
        optimise_keyword_type,
        obj(vec![("type", arr(vec![s("integer"), s("number")]))]),
        obj(vec![("type", s("number"))]),
    );
    check(
        optimise_keyword_type,
        obj(vec![("type", arr(vec![s("integer"), s("number"), s("string")]))]),
        obj(vec![("type", arr(vec![s("number"), s("string")]))]),
    );
}

#[test]
fn test_any_of_drops_dead_arms() {
    check(
        simplify_any_of,
        obj(vec![("anyOf", arr(vec![Json::Bool(false)]))]),
        Json::Bool(false),
    );
    check(
        simplify_any_of,
        obj(vec![("anyOf", arr(vec![Json::Bool(true)]))]),
        obj(vec![]),
    );
    check(
        simplify_any_of,
        obj(vec![("anyOf", arr(vec![
            obj(vec![("type", s("boolean"))]),
            obj(vec![("type", s("number"))]),
        ])), ("type", s("number"))]),
        obj(vec![("anyOf", arr(vec![obj(vec![("type", s("number"))])])), ("type", s("number"))]),
    );
    check(
        simplify_any_of,
        obj(vec![("anyOf", arr(vec![obj(vec![("type", s("integer"))])])), (
            "type",
            s("boolean"),
        )]),
        Json::Bool(false),
    );
    check(
        simplify_any_of,
        obj(vec![("anyOf", arr(vec![obj(vec![("type", s("integer"))])])), ("type", s("number"))]),
        obj(vec![("anyOf", arr(vec![obj(vec![("type", s("integer"))])])), ("type", s("number"))]),
    );
}

#[test]
fn test_bound_pairs_apply_to_undeclared_types_as_well() {
    // Without a `type` keyword every type is admitted, so the impossible
    // numeric bounds remove the numeric types and the rest are written out.
    check(
        update_max_min_related_keywords,
        obj(vec![("maximum", n(1)), ("minimum", n(2))]),
        obj(vec![("type", arr(vec![s("array"), s("boolean"), s("null"), s("object"), s(
            "string",
        )]))]),
    );
    check(
        update_max_min_related_keywords,
        obj(vec![("minItems", n(0))]),
        obj(vec![]),
    );
    check(
        update_max_min_related_keywords,
        obj(vec![("type", s("string")), ("minLength", n(0))]),
        obj(vec![("type", s("string"))]),
    );
}

#[test]
fn test_all_of_narrows_multi_type_arms() {
    check(
        simplify_all_of,
        obj(vec![("allOf", arr(vec![
            obj(vec![("type", arr(vec![s("integer"), s("string")]))]),
            obj(vec![("type", s("number"))]),
        ]))]),
        obj(vec![("allOf", arr(vec![
            obj(vec![("type", s("integer"))]),
            obj(vec![("type", s("integer"))]),
        ]))]),
    );
}

#[test]
fn test_additional_items_cannot_fire_beside_a_boolean_items() {
    check(
        simplify_additional_items,
        obj(vec![("additionalItems", Json::Bool(false)), ("items", Json::Bool(false))]),
        obj(vec![("items", Json::Bool(false))]),
    );
    check(
        simplify_additional_items,
        obj(vec![("additionalItems", obj(vec![("type", s("string"))])), (
            "items",
            Json::Bool(true),
        )]),
        obj(vec![("items", Json::Bool(true))]),
    );
}
