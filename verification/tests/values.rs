//! The value model: equality, numbers and type sets.

use jsonschema_equivalent::helpers::types::PrimitiveTypesBitMap;
use jsonschema_equivalent::helpers::{is_false_schema, is_true_schema};
use jsonschema_equivalent::json::{deep_clone, json_eq, str_eq, Json, Number};
use jsonschema_equivalent::num::{normalized_binary, num_le_exec, num_lt_exec};
use jsonschema_equivalent::primitive_type::PrimitiveType;

fn obj(entries: Vec<(&str, Json)>) -> Json {
    Json::Obj(entries.into_iter().map(|(k, v)| (k.to_string(), v)).collect())
}

fn s(x: &str) -> Json {
    Json::Str(x.to_string())
}

#[test]
fn test_str_eq_compares_character_sequences() {
    assert!(str_eq("type", "type"));
    assert!(!str_eq("type", "typo"));
    assert!(!str_eq("type", "types"));
    assert!(str_eq("", ""));
}

#[test]
fn test_json_eq_is_structural() {
    let a = obj(vec![("type", s("string")), ("minLength", Json::Num(Number::PosInt(1)))]);
    let b = deep_clone(&a);
    assert!(json_eq(&a, &b));
    // Key order matters for structural equality.
    let c = obj(vec![("minLength", Json::Num(Number::PosInt(1))), ("type", s("string"))]);
    assert!(!json_eq(&a, &c));
    // An integer and the same value in scaled binary form are distinct.
    assert!(!json_eq(
        &Json::Num(Number::PosInt(1)),
        &Json::Num(Number::Binary(false, 1, 0))
    ));
}

#[test]
fn test_numeric_order_crosses_representations() {
    let two = Number::PosInt(2);
    let minus_three = Number::NegInt(-3);
    let half = Number::Binary(false, 1, -1);
    let three_halves = Number::Binary(false, 3, -1);
    let big = Number::Binary(false, 1, 80);
    let minus_half = Number::Binary(true, 1, -1);
    assert!(num_lt_exec(&minus_three, &two));
    assert!(num_lt_exec(&half, &two));
    assert!(num_lt_exec(&half, &three_halves));
    assert!(num_lt_exec(&two, &big));
    assert!(num_lt_exec(&minus_half, &half));
    assert!(num_lt_exec(&minus_three, &minus_half));
    assert!(!num_lt_exec(&two, &two));
    assert!(num_le_exec(&two, &two));
    assert!(!num_le_exec(&two, &half));
    // 2^80 against a 64-bit integer near the top of its range.
    assert!(num_lt_exec(&Number::PosInt(u64::MAX), &big));
    // Zero in every clothing compares equal.
    let zero_int = Number::PosInt(0);
    let zero_bin = Number::Binary(false, 0, 0);
    assert!(!num_lt_exec(&zero_int, &zero_bin));
    assert!(!num_lt_exec(&zero_bin, &zero_int));
}

#[test]
fn test_bit_representations() {
    assert_eq!(PrimitiveType::Array.to_bit_representation_internal(), 1);
    assert_eq!(PrimitiveType::Number.to_bit_representation_internal(), 16);
    // A Number counts as an Integer as well.
    assert_eq!(PrimitiveType::Number.to_bit_representation(), 20);
    assert_eq!(PrimitiveType::Integer.to_bit_representation(), 4);
    assert_eq!(
        PrimitiveType::from_bit_representation(PrimitiveType::Number.to_bit_representation()),
        vec![PrimitiveType::Integer, PrimitiveType::Number]
    );
    assert_eq!(
        PrimitiveType::from_bit_representation(
            PrimitiveType::Array.to_bit_representation()
                | PrimitiveType::String.to_bit_representation()
        ),
        vec![PrimitiveType::Array, PrimitiveType::String]
    );
    assert_eq!(
        PrimitiveType::from_bit_representation(PrimitiveType::Integer.to_bit_representation()),
        vec![PrimitiveType::Integer]
    );
}

#[test]
fn test_type_set_membership_and_removal() {
    let from_number = PrimitiveTypesBitMap::from_schema(&obj(vec![("type", s("number"))]));
    assert!(from_number.contains(PrimitiveType::Integer));
    assert!(from_number.contains(PrimitiveType::Number));
    assert!(!from_number.contains(PrimitiveType::String));
    assert!(!from_number.has_other_primitive_types_other_than(PrimitiveType::Number));

    let from_integer = PrimitiveTypesBitMap::from_schema(&obj(vec![("type", s("integer"))]));
    assert!(from_integer.contains(PrimitiveType::Integer));
    assert!(!from_integer.contains(PrimitiveType::Number));
    // Clearing Number clears the Integer flag it carries, so nothing is left.
    assert!(!from_integer.has_other_primitive_types_other_than(PrimitiveType::Number));
    assert!(from_number.has_other_primitive_types_other_than(PrimitiveType::Integer));

    let mut both = from_number;
    both.remove(PrimitiveType::Number);
    assert!(both.is_empty());

    assert!(PrimitiveTypesBitMap::from_schema(&Json::Bool(true)).is_complete());
    assert!(PrimitiveTypesBitMap::from_schema(&Json::Bool(false)).is_empty());
    assert!(PrimitiveTypesBitMap::from_schema(&obj(vec![])).is_complete());
}

#[test]
fn test_type_set_round_trip_through_schema_values() {
    let cases = vec![
        (vec!["null"], s("null")),
        (vec!["array", "boolean"], Json::Arr(vec![s("array"), s("boolean")])),
        (vec!["integer"], s("integer")),
        (vec!["integer", "number"], s("number")),
        (vec!["integer", "number", "string"], Json::Arr(vec![s("number"), s("string")])),
    ];
    for (names, expected) in cases {
        let mut b = PrimitiveTypesBitMap::none();
        for name in names {
            b = b.add(PrimitiveType::from_name(name).unwrap());
        }
        let v = b.to_schema_value().unwrap();
        assert!(json_eq(&v, &expected));
        // Reading the canonical value back gives the same set.
        let back = PrimitiveTypesBitMap::from_schema_value(Some(&v));
        assert_eq!(b.intersect(back), back);
        assert_eq!(back.intersect(b), b);
    }
    assert!(PrimitiveTypesBitMap::none().to_schema_value().is_none());
    assert!(PrimitiveTypesBitMap::all().to_schema_value().is_none());
}

#[test]
fn test_primitive_type_names() {
    assert_eq!(PrimitiveType::from_name("array"), Some(PrimitiveType::Array));
    assert_eq!(PrimitiveType::from_name("string"), Some(PrimitiveType::String));
    assert_eq!(PrimitiveType::from_name("something"), None);
    assert_eq!(PrimitiveType::Object.as_name(), "object".to_string());
    assert_eq!(
        PrimitiveType::of_value(&Json::Num(Number::Binary(false, 1, -1))),
        PrimitiveType::Number
    );
    assert_eq!(PrimitiveType::of_value(&Json::Null), PrimitiveType::Null);
    assert_eq!(PrimitiveType::of_value(&obj(vec![])), PrimitiveType::Object);
}

#[test]
fn test_schema_classification() {
    assert!(is_true_schema(&Json::Bool(true)));
    assert!(is_true_schema(&obj(vec![])));
    assert!(!is_true_schema(&Json::Bool(false)));
    assert!(!is_true_schema(&obj(vec![("type", s("string"))])));
    assert!(is_false_schema(&Json::Bool(false)));
    assert!(!is_false_schema(&obj(vec![])));
    assert!(!is_false_schema(&Json::Null));
}

#[test]
fn test_malformed_type_values_admit_nothing() {
    let garbage_name = PrimitiveTypesBitMap::from_schema(&obj(vec![("type", s("a-wrong-type"))]));
    assert!(garbage_name.is_empty());
    let empty_list = PrimitiveTypesBitMap::from_schema(&obj(vec![("type", Json::Arr(vec![]))]));
    assert!(empty_list.is_empty());
    let number_value =
        PrimitiveTypesBitMap::from_schema(&obj(vec![("type", Json::Num(Number::PosInt(1)))]));
    assert!(number_value.is_empty());
    // Non-string elements of a type list are passed over.
    let mixed = PrimitiveTypesBitMap::from_schema(&obj(vec![("type", Json::Arr(vec![
        s("null"),
        Json::Num(Number::PosInt(1)),
    ]))]));
    assert!(mixed.contains(PrimitiveType::Null));
    assert!(!mixed.has_other_primitive_types_other_than(PrimitiveType::Null));
}

#[test]
fn test_normalized_binary_produces_the_canonical_form() {
    assert_eq!(normalized_binary(false, 12, -2), Number::Binary(false, 3, 0));
    assert_eq!(normalized_binary(true, 8, 0), Number::Binary(true, 1, 3));
    assert_eq!(normalized_binary(false, 5, 7), Number::Binary(false, 5, 7));
    assert_eq!(normalized_binary(true, 0, 9), Number::Binary(false, 0, 0));
    // 3/2 normalizes to itself and sits strictly between 1 and 2.
    let three_halves = normalized_binary(false, 6, -2);
    assert_eq!(three_halves, Number::Binary(false, 3, -1));
    assert!(num_lt_exec(&Number::PosInt(1), &three_halves));
    assert!(num_lt_exec(&three_halves, &Number::PosInt(2)));
}
