//! The two-schema intersection operator.

use jsonschema_equivalent::helpers::intersect::{
    common_values_and_deduplicate, intersection_schema, join_and_deduplicate,
};
use jsonschema_equivalent::json::{deep_clone, json_eq, Json, Number};

fn obj(entries: Vec<(&str, Json)>) -> Json {
    Json::Obj(entries.into_iter().map(|(k, v)| (k.to_string(), v)).collect())
}

fn s(x: &str) -> Json {
    Json::Str(x.to_string())
}

fn n(x: u64) -> Json {
    Json::Num(Number::PosInt(x))
}

fn arr(v: Vec<Json>) -> Json {
    Json::Arr(v)
}

fn intersect_to(schema: Json, other: Json, expected: Json, complete: bool) {
    let snapshot = deep_clone(&schema);
    let (out, status) = intersection_schema(schema, &other);
    assert!(json_eq(&out, &expected), "intersection produced an unexpected schema");
    assert_eq!(status.complete, complete);
    assert_eq!(status.is_schema_updated(), !json_eq(&out, &snapshot));
}

#[test]
fn test_intersection_base_cases() {
    intersect_to(obj(vec![]), obj(vec![]), obj(vec![]), true);
    intersect_to(s("not-a-schema"), obj(vec![]), s("not-a-schema"), true);
    intersect_to(obj(vec![]), s("not-a-schema"), obj(vec![]), true);
    intersect_to(
        obj(vec![("type", s("string"))]),
        Json::Bool(true),
        obj(vec![("type", s("string"))]),
        true,
    );
    intersect_to(
        Json::Bool(true),
        obj(vec![("type", s("string"))]),
        obj(vec![("type", s("string"))]),
        true,
    );
    intersect_to(obj(vec![("type", s("string"))]), Json::Bool(false), Json::Bool(false), true);
    intersect_to(
        Json::Bool(false),
        obj(vec![("type", s("string"))]),
        Json::Bool(false),
        true,
    );
}

#[test]
fn test_intersection_leaves_the_left_side_alone_for_an_accepting_right_side() {
    // An object with no keys accepts everything, like the boolean true:
    // nothing is merged and nothing changes.
    intersect_to(Json::Bool(true), obj(vec![]), Json::Bool(true), true);
    intersect_to(
        obj(vec![("type", s("string"))]),
        obj(vec![]),
        obj(vec![("type", s("string"))]),
        true,
    );
    intersect_to(
        obj(vec![("contains", Json::Bool(true))]),
        obj(vec![("contains", obj(vec![]))]),
        obj(vec![("contains", Json::Bool(true))]),
        true,
    );
}

#[test]
fn test_intersection_collapses_when_a_type_value_admits_nothing() {
    intersect_to(
        obj(vec![("type", s("a-wrong-type"))]),
        obj(vec![("type", s("string"))]),
        Json::Bool(false),
        true,
    );
    intersect_to(
        obj(vec![("type", arr(vec![]))]),
        obj(vec![("type", s("string"))]),
        Json::Bool(false),
        true,
    );
}

#[test]
fn test_intersection_copies_missing_keywords() {
    intersect_to(obj(vec![]), obj(vec![("minimum", n(1))]), obj(vec![("minimum", n(1))]), true);
    intersect_to(
        obj(vec![("maximum", n(2))]),
        obj(vec![("minimum", n(1))]),
        obj(vec![("maximum", n(2)), ("minimum", n(1))]),
        true,
    );
}

#[test]
fn test_intersection_joins_all_of_and_required() {
    intersect_to(
        obj(vec![("allOf", arr(vec![Json::Bool(true)]))]),
        obj(vec![("allOf", arr(vec![Json::Bool(true)]))]),
        obj(vec![("allOf", arr(vec![Json::Bool(true)]))]),
        true,
    );
    intersect_to(
        obj(vec![("allOf", arr(vec![obj(vec![("type", s("string"))])]))]),
        obj(vec![("allOf", arr(vec![
            obj(vec![("type", s("number"))]),
            obj(vec![("type", s("string"))]),
        ]))]),
        obj(vec![("allOf", arr(vec![
            obj(vec![("type", s("string"))]),
            obj(vec![("type", s("number"))]),
        ]))]),
        true,
    );
    intersect_to(
        obj(vec![("required", arr(vec![s("p1")]))]),
        obj(vec![("required", arr(vec![s("p2")]))]),
        obj(vec![("required", arr(vec![s("p1"), s("p2")]))]),
        true,
    );
    intersect_to(
        obj(vec![("required", arr(vec![]))]),
        obj(vec![("required", arr(vec![s("p1")]))]),
        obj(vec![("required", arr(vec![s("p1")]))]),
        true,
    );
}

#[test]
fn test_intersection_settles_constants() {
    intersect_to(
        obj(vec![("const", Json::Bool(true))]),
        obj(vec![("const", Json::Bool(true))]),
        obj(vec![("const", Json::Bool(true))]),
        true,
    );
    intersect_to(
        obj(vec![("const", Json::Bool(false))]),
        obj(vec![("const", Json::Bool(true))]),
        Json::Bool(false),
        true,
    );
    intersect_to(
        obj(vec![("contentEncoding", s("base64"))]),
        obj(vec![("contentEncoding", s("7bit"))]),
        Json::Bool(false),
        true,
    );
}

#[test]
fn test_intersection_recurses_into_contains_and_property_names() {
    intersect_to(
        obj(vec![("contains", obj(vec![("type", s("string"))]))]),
        obj(vec![("contains", obj(vec![("minLength", n(1))]))]),
        obj(vec![("contains", obj(vec![("type", s("string")), ("minLength", n(1))]))]),
        true,
    );
    intersect_to(
        obj(vec![("propertyNames", obj(vec![("type", s("string"))]))]),
        obj(vec![("propertyNames", obj(vec![("type", s("number"))]))]),
        obj(vec![("propertyNames", Json::Bool(false))]),
        true,
    );
}

#[test]
fn test_intersection_intersects_enums() {
    intersect_to(
        obj(vec![("enum", arr(vec![n(1), n(2), n(3)]))]),
        obj(vec![("enum", arr(vec![n(1), n(3), n(5)]))]),
        obj(vec![("enum", arr(vec![n(1), n(3)]))]),
        true,
    );
    intersect_to(
        obj(vec![("enum", arr(vec![n(1), n(2), n(3)]))]),
        obj(vec![("enum", arr(vec![n(4), n(5), n(6)]))]),
        Json::Bool(false),
        true,
    );
}

#[test]
fn test_intersection_keeps_the_tighter_bound() {
    intersect_to(
        obj(vec![("exclusiveMaximum", n(1))]),
        obj(vec![("exclusiveMaximum", n(2))]),
        obj(vec![("exclusiveMaximum", n(1))]),
        true,
    );
    intersect_to(
        obj(vec![("exclusiveMinimum", n(1))]),
        obj(vec![("exclusiveMinimum", n(2))]),
        obj(vec![("exclusiveMinimum", n(2))]),
        true,
    );
    intersect_to(
        obj(vec![("maxLength", n(1))]),
        obj(vec![("maxLength", n(2))]),
        obj(vec![("maxLength", n(1))]),
        true,
    );
    intersect_to(
        obj(vec![("minItems", n(1))]),
        obj(vec![("minItems", n(2))]),
        obj(vec![("minItems", n(2))]),
        true,
    );
}

#[test]
fn test_intersection_narrows_types() {
    intersect_to(
        obj(vec![("type", s("integer"))]),
        obj(vec![("type", s("number"))]),
        obj(vec![("type", s("integer"))]),
        true,
    );
    intersect_to(
        obj(vec![("type", arr(vec![s("integer"), s("object"), s("string")]))]),
        obj(vec![("type", arr(vec![s("integer"), s("string")]))]),
        obj(vec![("type", arr(vec![s("integer"), s("string")]))]),
        true,
    );
    intersect_to(
        obj(vec![("type", arr(vec![s("integer"), s("object"), s("string")]))]),
        obj(vec![("type", s("number"))]),
        obj(vec![("type", s("integer"))]),
        true,
    );
    intersect_to(
        obj(vec![("type", s("object"))]),
        obj(vec![("type", s("string"))]),
        Json::Bool(false),
        true,
    );
}

#[test]
fn test_intersection_ors_unique_items() {
    intersect_to(
        obj(vec![("uniqueItems", Json::Bool(false))]),
        obj(vec![("uniqueItems", Json::Bool(true))]),
        obj(vec![("uniqueItems", Json::Bool(true))]),
        true,
    );
}

#[test]
fn test_intersection_reports_unmergeable_keywords_as_partial() {
    intersect_to(
        obj(vec![("oneOf", arr(vec![Json::Bool(true)]))]),
        obj(vec![("oneOf", arr(vec![Json::Bool(false)]))]),
        obj(vec![("oneOf", arr(vec![Json::Bool(true)]))]),
        false,
    );
    intersect_to(
        obj(vec![("pattern", s("a+"))]),
        obj(vec![("pattern", s("b+"))]),
        obj(vec![("pattern", s("a+"))]),
        false,
    );
    intersect_to(
        obj(vec![("custom-annotation", n(1))]),
        obj(vec![("custom-annotation", n(2))]),
        obj(vec![("custom-annotation", n(1))]),
        false,
    );
}

#[test]
fn test_join_and_common_deduplicate() {
    let la = vec![n(1), n(2), n(2)];
    let ra = vec![n(2), n(3)];
    let joined = join_and_deduplicate(&la, &ra);
    assert!(json_eq(&Json::Arr(joined), &arr(vec![n(1), n(2), n(3)])));
    let common = common_values_and_deduplicate(&la, &ra);
    assert!(json_eq(&Json::Arr(common), &arr(vec![n(2)])));
}
