use arroyo_state::udf::{parse_dependencies, UdfError};

#[test]
fn test_parse_dependencies_valid() {
    let definition = r#"
/*
[dependencies]
serde = "1.0"
*/

pub fn my_udf() -> i64 {
    1
}
        "#;

    assert_eq!(
        parse_dependencies(definition).unwrap(),
        r#"[dependencies]
serde = "1.0"
"#
    );
}

#[test]
fn test_parse_dependencies_none() {
    let definition = r#"
pub fn my_udf() -> i64 {
    1
}
        "#;

    assert_eq!(
        parse_dependencies(definition).unwrap(),
        r#"[dependencies]
# none defined
"#
    );
}

#[test]
fn test_parse_dependencies_multiple() {
    let definition = r#"
/*
[dependencies]
serde = "1.0"
*/

/*
[dependencies]
serde = "1.0"
*/

pub fn my_udf() -> i64 {
    1

        "#;
    assert!(parse_dependencies(definition).is_err());
    assert_eq!(
        parse_dependencies(definition),
        Err(UdfError::MultipleDependencyDefinitions)
    );
}

#[test]
fn unclosed_dependencies_comment_is_ignored() {
    let definition = "/*\n[dependencies]\nserde = \"1.0\"\n";
    assert_eq!(
        parse_dependencies(definition).unwrap(),
        "[dependencies]\n# none defined\n"
    );
}
