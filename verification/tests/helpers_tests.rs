//! Keyword housekeeping: building removal lists and pruning object keys.

use jsonschema_equivalent::constants::keywords;
use jsonschema_equivalent::helpers::{keywords_to_remove, preserve_keys};
use jsonschema_equivalent::json::{json_eq, Json, Number};

fn obj(entries: Vec<(&str, Json)>) -> Json {
    Json::Obj(entries.into_iter().map(|(k, v)| (k.to_string(), v)).collect())
}

fn names(v: Vec<&str>) -> Vec<String> {
    v.into_iter().map(|s| s.to_string()).collect()
}

#[test]
fn helpers_test_keywords_to_remove_remove_not_existing_keyword() {
    assert_eq!(keywords_to_remove(&names(vec!["not-exitsting"])), keywords());
}

#[test]
fn helpers_test_keywords_to_remove_remove_existing_keyword() {
    let all_but_type: Vec<String> =
        keywords().into_iter().filter(|k| k != "type").collect();
    assert_eq!(keywords_to_remove(&names(vec!["type"])), all_but_type);

    let all_but_minimum_type: Vec<String> =
        keywords().into_iter().filter(|k| k != "minimum" && k != "type").collect();
    assert_eq!(
        keywords_to_remove(&names(vec!["minimum", "type"])),
        all_but_minimum_type
    );
}

#[test]
fn mod_test_keywords_to_remove_remove_not_existing_keyword() {
    assert_eq!(keywords_to_remove(&names(vec!["not-exitsting"])), keywords());
}

#[test]
fn mod_test_keywords_to_remove_remove_existing_keyword() {
    let all_but_type: Vec<String> =
        keywords().into_iter().filter(|k| k != "type").collect();
    assert_eq!(keywords_to_remove(&names(vec!["type"])), all_but_type);

    let all_but_minimum_type: Vec<String> =
        keywords().into_iter().filter(|k| k != "minimum" && k != "type").collect();
    assert_eq!(
        keywords_to_remove(&names(vec!["minimum", "type"])),
        all_but_minimum_type
    );
}

#[test]
fn test_preserve_keys_keeps_missing_and_unknown_keys() {
    // A key that is not a known keyword survives even when not preserved.
    let mut m = vec![("non-jsonschema-keyword".to_string(), Json::Num(Number::PosInt(1)))];
    preserve_keys(&mut m, &names(vec![]));
    assert!(json_eq(
        &Json::Obj(m),
        &obj(vec![("non-jsonschema-keyword", Json::Num(Number::PosInt(1)))])
    ));

    // A known keyword is removed when not preserved.
    let mut m = vec![("type".to_string(), Json::Num(Number::PosInt(1)))];
    preserve_keys(&mut m, &names(vec![]));
    assert!(json_eq(&Json::Obj(m), &obj(vec![])));

    // Preserving a key that is absent does nothing.
    let mut m: Vec<(String, Json)> = vec![];
    preserve_keys(&mut m, &names(vec!["not-existing-key"]));
    assert!(json_eq(&Json::Obj(m), &obj(vec![])));
}
