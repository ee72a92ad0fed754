//! The static keyword tables.

use jsonschema_equivalent::constants::{is_keyword, keywords};
use jsonschema_equivalent::keywords::type_::{
    keywords_type_array, keywords_type_boolean, keywords_type_integer, keywords_type_null,
    keywords_type_number, keywords_type_object, keywords_type_string,
};
use std::collections::HashSet;

#[test]
fn test_ensure_that_all_keywords_are_included_into_keyword_specific_types() {
    let all: HashSet<String> = keywords().into_iter().collect();
    let mut union: HashSet<String> = HashSet::new();
    union.extend(keywords_type_array());
    union.extend(keywords_type_boolean());
    union.extend(keywords_type_integer());
    union.extend(keywords_type_null());
    union.extend(keywords_type_number());
    union.extend(keywords_type_object());
    union.extend(keywords_type_string());
    assert_eq!(all, union);
}

#[test]
fn test_keyword_membership() {
    assert!(is_keyword("type"));
    assert!(is_keyword("additionalProperties"));
    assert!(is_keyword("uniqueItems"));
    assert!(!is_keyword("not-a-keyword"));
    assert!(!is_keyword(""));
    assert_eq!(keywords().len(), 35);
}

#[test]
fn test_per_type_groups_only_hold_known_keywords() {
    let all: HashSet<String> = keywords().into_iter().collect();
    for group in [
        keywords_type_array(),
        keywords_type_boolean(),
        keywords_type_integer(),
        keywords_type_null(),
        keywords_type_number(),
        keywords_type_object(),
        keywords_type_string(),
    ] {
        for k in group {
            assert!(all.contains(&k));
        }
    }
}
