use std::cell::Cell;

use pattern_matcher::{
    evaluate, find_branch, find_match, match_branches, match_pattern, MatchBranch, MatchError,
    Pattern, Value,
};

fn num(n: i64) -> Value {
    Value::Number(n)
}

fn text(s: &str) -> Value {
    Value::Str(s.to_string())
}

fn obj(entries: Vec<(&str, Value)>) -> Value {
    Value::Object(entries.into_iter().map(|(k, v)| (k.to_string(), v)).collect())
}

fn no_predicates(_h: u64, _v: &Value) -> Option<bool> {
    panic!("the predicate must not be invoked")
}

fn value_desc(v: Value) -> Value {
    obj(vec![("type", text("Value")), ("value", v)])
}

fn wildcard_desc() -> Value {
    obj(vec![("type", text("Wildcard"))])
}

#[test]
fn test_full_match() {
    let patterns = Value::Array(vec![value_desc(num(1)), wildcard_desc()]);
    let result_matched = match_pattern(&num(1), &patterns, &no_predicates).unwrap();
    let result_default = match_pattern(&num(0), &patterns, &no_predicates).unwrap();
    assert_eq!(result_matched, Some(0));
    assert_eq!(result_default, Some(1));
}

#[test]
fn branches_short_circuit_on_first_match() {
    let branch = |p: Value, r: &str| obj(vec![("pattern", p), ("result", text(r))]);
    let branches = Value::Array(vec![
        branch(value_desc(num(1)), "matched"),
        branch(wildcard_desc(), "default"),
    ]);
    assert_eq!(match_branches(&num(1), &branches, &no_predicates), Ok(text("matched")));
    assert_eq!(match_branches(&num(0), &branches, &no_predicates), Ok(text("default")));
}

#[test]
fn no_match_gives_none_or_undefined() {
    let patterns = Value::Array(vec![value_desc(num(1))]);
    assert_eq!(match_pattern(&num(2), &patterns, &no_predicates), Ok(None));
    assert_eq!(match_pattern(&num(2), &Value::Array(vec![]), &no_predicates), Ok(None));
    let branches = Value::Array(vec![obj(vec![
        ("pattern", value_desc(num(1))),
        ("result", text("one")),
    ])]);
    assert_eq!(match_branches(&num(2), &branches, &no_predicates), Ok(Value::Undefined));
}

#[test]
fn unknown_type_is_surfaced_not_skipped() {
    let patterns = Value::Array(vec![
        wildcard_desc(),
        obj(vec![("type", text("Mystery"))]),
    ]);
    assert_eq!(
        match_pattern(&num(1), &patterns, &no_predicates),
        Err(MatchError::UnknownPatternType("Mystery".to_string()))
    );
}

#[test]
fn non_array_patterns_fail() {
    assert_eq!(
        match_pattern(&num(1), &wildcard_desc(), &no_predicates),
        Err(MatchError::NotAnArray)
    );
    assert_eq!(
        match_branches(&num(1), &text("x"), &no_predicates),
        Err(MatchError::NotAnArray)
    );
}

#[test]
fn missing_branch_field_fails() {
    let branches = Value::Array(vec![obj(vec![("pattern", wildcard_desc())])]);
    assert_eq!(
        match_branches(&num(1), &branches, &no_predicates),
        Err(MatchError::MissingField("result".to_string()))
    );
}

#[test]
fn predicate_pattern_dispatch() {
    let gt5 = |_h: u64, v: &Value| match v {
        Value::Number(n) => Some(*n > 5),
        _ => Some(false),
    };
    let patterns = Value::Array(vec![
        obj(vec![("type", text("Function")), ("func", Value::Callable(0))]),
        wildcard_desc(),
    ]);
    assert_eq!(match_pattern(&num(10), &patterns, &gt5), Ok(Some(0)));
    assert_eq!(match_pattern(&num(1), &patterns, &gt5), Ok(Some(1)));
}

#[test]
fn later_predicates_are_not_invoked() {
    let calls = Cell::new(0u32);
    let counting = |_h: u64, _v: &Value| {
        calls.set(calls.get() + 1);
        Some(true)
    };
    let patterns = vec![
        Pattern::Value(num(7)),
        Pattern::Function(Value::Callable(0)),
        Pattern::Function(Value::Callable(1)),
    ];
    assert_eq!(find_match(&num(7), &patterns, &counting), Ok(Some(0)));
    assert_eq!(calls.get(), 0);
    assert_eq!(find_match(&num(8), &patterns, &counting), Ok(Some(1)));
    assert_eq!(calls.get(), 1);
}

#[test]
fn predicate_fault_aborts_dispatch() {
    let faulting = |_h: u64, _v: &Value| None;
    let patterns = vec![
        Pattern::Value(num(1)),
        Pattern::Function(Value::Callable(0)),
        Pattern::Wildcard,
    ];
    assert_eq!(find_match(&num(1), &patterns, &faulting), Ok(Some(0)));
    assert_eq!(find_match(&num(2), &patterns, &faulting), Err(MatchError::PredicateFailed));
}

#[test]
fn evaluate_returns_result_verbatim() {
    let branches = vec![
        MatchBranch {
            pattern: Pattern::Object(obj(vec![("kind", text("dog"))])),
            result: obj(vec![("says", text("woof"))]),
        },
        MatchBranch { pattern: Pattern::Wildcard, result: Value::Null },
    ];
    let dog = obj(vec![("kind", text("dog")), ("age", num(3))]);
    let cat = obj(vec![("kind", text("cat"))]);
    assert_eq!(evaluate(&dog, &branches, &no_predicates), Ok(obj(vec![("says", text("woof"))])));
    assert_eq!(evaluate(&cat, &branches, &no_predicates), Ok(Value::Null));
    assert_eq!(find_branch(&dog, &branches, &no_predicates), Ok(Some(0)));
    assert_eq!(find_branch(&cat, &branches, &no_predicates), Ok(Some(1)));
}
