use pymutant::digest::content_hash;
use pymutant::syntax::{
    stringify_expression, stringify_statement, ExpressionType, OperatorSerde, StatementType,
};

#[test]
fn content_hash_is_lowercase_sha1_hex() {
    assert_eq!(content_hash(""), "da39a3ee5e6b4b0d3255bfef95601890afd80709");
    assert_eq!(content_hash("assert x == 3"), "1c2e4cbfa6c4f644181d83fa7f9d154acb72c17d");
}

#[test]
fn kind_names_are_padded() {
    assert_eq!(stringify_expression(&ExpressionType::Binop { op: OperatorSerde::Add }), "Binop        ");
    assert_eq!(stringify_expression(&ExpressionType::NoneConstant), "None         ");
    assert_eq!(stringify_statement(&StatementType::FunctionDef { is_async: false, name: "f".to_string() }), "FunctionDef");
    assert_eq!(stringify_statement(&StatementType::Pass), "Pass       ");
}
