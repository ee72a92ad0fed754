//! End-to-end simplification through the public entry points.

use jsonschema_equivalent::json::{deep_clone, json_eq, Json, Number};
use jsonschema_equivalent::keywords::update_schema;
use jsonschema_equivalent::{jsonschema_equivalent, jsonschema_equivalent_ref};

fn obj(entries: Vec<(&str, Json)>) -> Json {
    Json::Obj(entries.into_iter().map(|(k, v)| (k.to_string(), v)).collect())
}

fn s(x: &str) -> Json {
    Json::Str(x.to_string())
}

fn n(x: u64) -> Json {
    Json::Num(Number::PosInt(x))
}

fn arr(v: Vec<Json>) -> Json {
    Json::Arr(v)
}

fn simplifies_to(input: Json, expected: Json) {
    let out = jsonschema_equivalent(input);
    assert!(json_eq(&out, &expected), "simplified schema differs from the expected one");
}

#[test]
fn test_null_schema_is_left_alone() {
    simplifies_to(Json::Null, Json::Null);
    let mut v = Json::Null;
    jsonschema_equivalent_ref(&mut v);
    assert!(json_eq(&v, &Json::Null));
}

#[test]
fn test_empty_object_becomes_the_accepting_schema() {
    simplifies_to(obj(vec![]), Json::Bool(true));
}

#[test]
fn test_extraneous_keyword_pruning_end_to_end() {
    simplifies_to(
        obj(vec![("type", s("string")), ("minimum", n(1))]),
        obj(vec![("type", s("string"))]),
    );
}

#[test]
fn test_all_of_intersection_end_to_end() {
    simplifies_to(
        obj(vec![("allOf", arr(vec![
            obj(vec![("type", s("integer"))]),
            obj(vec![("type", s("number"))]),
        ]))]),
        obj(vec![("type", s("integer"))]),
    );
}

#[test]
fn test_disjoint_all_of_end_to_end() {
    simplifies_to(
        obj(vec![("allOf", arr(vec![
            obj(vec![("type", s("string"))]),
            obj(vec![("type", s("number"))]),
        ]))]),
        Json::Bool(false),
    );
}

#[test]
fn test_unsatisfiable_bounds_end_to_end() {
    simplifies_to(
        obj(vec![("type", s("number")), ("maximum", n(1)), ("minimum", n(2))]),
        Json::Bool(false),
    );
}

#[test]
fn test_constant_if_end_to_end() {
    // The constant predicate keeps only the live branch, and the later
    // hoisting pass pulls that branch out of its one-element conjunction.
    simplifies_to(
        obj(vec![("if", Json::Bool(false)), ("then", obj(vec![("minLength", n(0))])), (
            "else",
            obj(vec![("maxLength", n(0))]),
        )]),
        obj(vec![("maxLength", n(0))]),
    );
}

#[test]
fn test_property_names_end_to_end() {
    simplifies_to(
        obj(vec![("type", s("object")), ("propertyNames", obj(vec![("type", s("number"))]))]),
        obj(vec![("type", s("object")), ("maxProperties", n(0))]),
    );
}

#[test]
fn test_enum_outside_type_end_to_end() {
    simplifies_to(
        obj(vec![("enum", arr(vec![n(1), n(2), n(3)])), ("type", s("string"))]),
        Json::Bool(false),
    );
}

#[test]
fn test_additional_items_end_to_end() {
    simplifies_to(
        obj(vec![("additionalItems", Json::Bool(false)), ("items", arr(vec![
            Json::Bool(true),
            Json::Bool(true),
            Json::Bool(true),
        ]))]),
        obj(vec![("items", arr(vec![Json::Bool(true), Json::Bool(true), Json::Bool(true)])), (
            "maxItems",
            n(3),
        )]),
    );
}

#[test]
fn test_sub_schemas_are_simplified_in_place() {
    simplifies_to(
        obj(vec![("properties", obj(vec![("prop", obj(vec![("type", s("string")), (
            "minimum",
            n(1),
        )]))]))]),
        obj(vec![("properties", obj(vec![("prop", obj(vec![("type", s("string"))]))]))]),
    );
}

#[test]
fn test_simplification_is_idempotent_on_examples() {
    let inputs = vec![
        obj(vec![("type", s("string")), ("minimum", n(1))]),
        obj(vec![("allOf", arr(vec![
            obj(vec![("type", s("integer"))]),
            obj(vec![("type", s("number"))]),
        ]))]),
        obj(vec![("if", Json::Bool(false)), ("then", obj(vec![("minLength", n(0))])), (
            "else",
            obj(vec![("maxLength", n(0))]),
        )]),
        obj(vec![("enum", arr(vec![n(1), s("x")])), ("type", s("string"))]),
    ];
    for input in inputs {
        let once = jsonschema_equivalent(input);
        let again = jsonschema_equivalent(deep_clone(&once));
        assert!(json_eq(&again, &once));
    }
}

#[test]
fn test_update_schema_flag_is_clear_on_fixed_points() {
    let fixed = obj(vec![("type", s("string"))]);
    let (out, changed) = update_schema(&fixed);
    assert!(json_eq(&out, &fixed));
    assert!(!changed);
}

#[test]
fn test_all_of_merges_required_lists_into_the_outer_schema() {
    // The first arm is fully absorbed; the second keeps its unmergeable
    // `properties` but contributes its `required` entries.
    fn arm1() -> Json {
        obj(vec![("properties", obj(vec![("bar", obj(vec![("type", s("integer"))]))])), (
            "required",
            arr(vec![s("bar")]),
        )])
    }
    fn arm2() -> Json {
        obj(vec![("properties", obj(vec![("foo", obj(vec![("type", s("string"))]))])), (
            "required",
            arr(vec![s("foo")]),
        )])
    }
    simplifies_to(
        obj(vec![("allOf", arr(vec![arm1(), arm2()]))]),
        obj(vec![("allOf", arr(vec![arm2()])), (
            "properties",
            obj(vec![("bar", obj(vec![("type", s("integer"))]))]),
        ), ("required", arr(vec![s("bar"), s("foo")]))]),
    );
}

#[test]
fn test_singleton_all_of_collapses_into_the_outer_schema() {
    simplifies_to(
        obj(vec![("allOf", arr(vec![obj(vec![("type", s("string")), ("minimum", n(1))])]))]),
        obj(vec![("type", s("string"))]),
    );
}

#[test]
fn test_redundant_integer_is_dropped_from_the_type_list() {
    simplifies_to(
        obj(vec![("type", arr(vec![s("number"), s("integer")])), ("minLength", n(1))]),
        obj(vec![("type", s("number"))]),
    );
}

#[test]
fn test_a_type_value_admitting_nothing_rejects_everything() {
    simplifies_to(obj(vec![("type", arr(vec![]))]), Json::Bool(false));
}
