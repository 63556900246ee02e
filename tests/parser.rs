use pattern_matcher::{
    find_key, get_property, parse_branch, parse_branches, parse_pattern, parse_patterns,
    MatchBranch, MatchError, Pattern, Value,
};

fn num(n: i64) -> Value {
    Value::Number(n)
}

fn text(s: &str) -> Value {
    Value::Str(s.to_string())
}

fn obj(entries: Vec<(&str, Value)>) -> Value {
    Value::Object(entries.into_iter().map(|(k, v)| (k.to_string(), v)).collect())
}

#[test]
fn test_parse_partern_value() {
    let pattern_obj = obj(vec![("type", text("Value")), ("value", num(1))]);
    let res = parse_pattern(&pattern_obj).unwrap();
    assert_eq!(res, Pattern::Value(num(1)));
}

#[test]
fn test_parse_pattern_wildcard() {
    let pattern_obj = obj(vec![("type", text("Wildcard"))]);
    let res = parse_pattern(&pattern_obj).unwrap();
    assert_eq!(res, Pattern::Wildcard);
}

#[test]
fn parse_object_and_function_patterns() {
    let o = obj(vec![("type", text("Object")), ("pattern", obj(vec![("x", num(1))]))]);
    assert_eq!(parse_pattern(&o), Ok(Pattern::Object(obj(vec![("x", num(1))]))));
    let f = obj(vec![("func", Value::Callable(5)), ("type", text("Function"))]);
    assert_eq!(parse_pattern(&f), Ok(Pattern::Function(Value::Callable(5))));
}

#[test]
fn parse_absent_operand_is_undefined() {
    let v = obj(vec![("type", text("Value"))]);
    assert_eq!(parse_pattern(&v), Ok(Pattern::Value(Value::Undefined)));
    let f = obj(vec![("type", text("Function"))]);
    assert_eq!(parse_pattern(&f), Ok(Pattern::Function(Value::Undefined)));
}

#[test]
fn parse_wildcard_ignores_other_fields() {
    let w = obj(vec![("type", text("Wildcard")), ("value", num(3))]);
    assert_eq!(parse_pattern(&w), Ok(Pattern::Wildcard));
}

#[test]
fn parse_unknown_type_fails() {
    let d = obj(vec![("type", text("Regex"))]);
    assert_eq!(
        parse_pattern(&d),
        Err(MatchError::UnknownPatternType("Regex".to_string()))
    );
    let lower = obj(vec![("type", text("value"))]);
    assert_eq!(
        parse_pattern(&lower),
        Err(MatchError::UnknownPatternType("value".to_string()))
    );
}

#[test]
fn parse_missing_or_invalid_type_fails() {
    assert_eq!(parse_pattern(&obj(vec![])), Err(MatchError::MissingOrInvalidType));
    assert_eq!(
        parse_pattern(&obj(vec![("type", num(1))])),
        Err(MatchError::MissingOrInvalidType)
    );
    assert_eq!(parse_pattern(&text("Value")), Err(MatchError::MissingOrInvalidType));
    assert_eq!(parse_pattern(&Value::Null), Err(MatchError::MissingOrInvalidType));
}

#[test]
fn parse_patterns_needs_an_array() {
    assert_eq!(parse_patterns(&obj(vec![])), Err(MatchError::NotAnArray));
    assert_eq!(parse_patterns(&Value::Undefined), Err(MatchError::NotAnArray));
}

#[test]
fn parse_patterns_keeps_order() {
    let list = Value::Array(vec![
        obj(vec![("type", text("Value")), ("value", num(1))]),
        obj(vec![("type", text("Wildcard"))]),
    ]);
    assert_eq!(
        parse_patterns(&list),
        Ok(vec![Pattern::Value(num(1)), Pattern::Wildcard])
    );
    assert_eq!(parse_patterns(&Value::Array(vec![])), Ok(vec![]));
}

#[test]
fn parse_patterns_fails_on_first_bad_item() {
    let list = Value::Array(vec![
        obj(vec![("type", text("Wildcard"))]),
        obj(vec![("type", text("Nope"))]),
        num(3),
    ]);
    assert_eq!(
        parse_patterns(&list),
        Err(MatchError::UnknownPatternType("Nope".to_string()))
    );
}

#[test]
fn parse_branch_reads_pattern_and_result() {
    let d = obj(vec![
        ("pattern", obj(vec![("type", text("Value")), ("value", num(1))])),
        ("result", text("one")),
    ]);
    assert_eq!(
        parse_branch(&d),
        Ok(MatchBranch { pattern: Pattern::Value(num(1)), result: text("one") })
    );
}

#[test]
fn parse_branch_missing_fields() {
    let no_pattern = obj(vec![("result", num(1))]);
    assert_eq!(
        parse_branch(&no_pattern),
        Err(MatchError::MissingField("pattern".to_string()))
    );
    let no_result = obj(vec![("pattern", obj(vec![("type", text("Wildcard"))]))]);
    assert_eq!(
        parse_branch(&no_result),
        Err(MatchError::MissingField("result".to_string()))
    );
    let bad_pattern = obj(vec![("pattern", num(1)), ("result", num(1))]);
    assert_eq!(parse_branch(&bad_pattern), Err(MatchError::MissingOrInvalidType));
}

#[test]
fn parse_branches_needs_an_array() {
    assert_eq!(parse_branches(&num(0)), Err(MatchError::NotAnArray));
    let list = Value::Array(vec![obj(vec![
        ("pattern", obj(vec![("type", text("Wildcard"))])),
        ("result", Value::Null),
    ])]);
    assert_eq!(
        parse_branches(&list),
        Ok(vec![MatchBranch { pattern: Pattern::Wildcard, result: Value::Null }])
    );
}

#[test]
fn property_lookup() {
    let entries = vec![("a".to_string(), num(1)), ("b".to_string(), num(2))];
    assert_eq!(find_key(&entries, &"b".to_string()), Some(1));
    assert_eq!(find_key(&entries, &"c".to_string()), None);
    assert_eq!(get_property(&entries, &"a".to_string()), num(1));
    assert_eq!(get_property(&entries, &"c".to_string()), Value::Undefined);
}
