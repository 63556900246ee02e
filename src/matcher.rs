use vstd::prelude::*;

use crate::types::{MatchError, Pattern, PatternModel};
use crate::value::{
    entries_view, find_key, has_key, items_view, lemma_lookup_at, lookup, Value, ValueModel,
};

verus! {

/// Deep structural equality of two values.
///
/// Two numbers are equal when they lie within machine epsilon of each
/// other; for the integers that a `Value` holds this is plain equality.
/// Arrays are equal when their lengths agree and their items agree in
/// order. Objects are equal when they have as many own keys, and each key
/// of `a` is a key of `b` with an equal value. Values of different kinds
/// are unequal, and a callable equals nothing.
pub open spec fn value_equal(a: ValueModel, b: ValueModel) -> bool
    decreases a,
{
    match a {
        ValueModel::Null => b is Null,
        ValueModel::Undefined => b is Undefined,
        ValueModel::Number(x) => match b {
            ValueModel::Number(y) => x == y,
            _ => false,
        },
        ValueModel::Str(x) => match b {
            ValueModel::Str(y) => x == y,
            _ => false,
        },
        ValueModel::Bool(x) => match b {
            ValueModel::Bool(y) => x == y,
            _ => false,
        },
        ValueModel::Array(xs) => match b {
            ValueModel::Array(ys) => {
                &&& xs.len() == ys.len()
                &&& forall|i: int|
                    0 <= i < xs.len() ==> value_equal(#[trigger] xs[i], ys[i])
            },
            _ => false,
        },
        ValueModel::Object(xs) => match b {
            ValueModel::Object(ys) => {
                &&& xs.len() == ys.len()
                &&& forall|i: int|
                    0 <= i < xs.len() ==> {
                        &&& has_key(ys, (#[trigger] xs[i]).0)
                        &&& value_equal(xs[i].1, lookup(ys, xs[i].0))
                    }
            },
            _ => false,
        },
        ValueModel::Callable(_) => false,
    }
}

/// Both values are arrays, and they are equal.
pub open spec fn array_equal(a: ValueModel, b: ValueModel) -> bool {
    a is Array && b is Array && value_equal(a, b)
}

/// Both values are objects, and they are equal.
pub open spec fn object_equal(a: ValueModel, b: ValueModel) -> bool {
    a is Object && b is Object && value_equal(a, b)
}

/// Structural containment of `pattern` in `data`.
///
/// A pattern that is not an object matches by `value_equal`. An object
/// pattern matches an object whose keys include every key of the pattern,
/// each with a value that the pattern's value matches in turn; keys that
/// only `data` has are ignored.
pub open spec fn object_match(data: ValueModel, pattern: ValueModel) -> bool
    decreases pattern,
{
    match pattern {
        ValueModel::Object(ps) => match data {
            ValueModel::Object(ds) => forall|i: int|
                0 <= i < ps.len() ==> {
                    &&& has_key(ds, (#[trigger] ps[i]).0)
                    &&& object_match(lookup(ds, ps[i].0), ps[i].1)
                },
            _ => false,
        },
        _ => value_equal(data, pattern),
    }
}

/// Deep equality of `a` and `b`.

pub fn check_value_equal(a: &Value, b: &Value) -> (r: bool)
    ensures
        r == value_equal(a@, b@),
    decreases *a, 1int,
{
    match (a, b) {
        (Value::Null, Value::Null) => true,
        (Value::Undefined, Value::Undefined) => true,
        (Value::Number(x), Value::Number(y)) => *x == *y,
        (Value::Str(x), Value::Str(y)) => *x == *y,
        (Value::Bool(x), Value::Bool(y)) => *x == *y,
        (Value::Array(_), Value::Array(_)) => check_array_equal(a, b),
        (Value::Object(_), Value::Object(_)) => check_object_equal(a, b),
        _ => false,
    }
}

/// Equality of two arrays: equal lengths and equal items, compared in
/// order up to the first pair that differs.
pub fn check_array_equal(a: &Value, b: &Value) -> (r: bool)
    ensures
        r == array_equal(a@, b@),
    decreases *a, 0int,
{
    let (xs, ys) = match (a, b) {
        (Value::Array(xs), Value::Array(ys)) => (xs, ys),
        _ => return false,
    };
    let ghost xm = items_view(xs@);
    let ghost ym = items_view(ys@);
    assert(xm.len() == xs.len());
    assert(ym.len() == ys.len());
    if xs.len() != ys.len() {
        return false;
    }
    let mut i: usize = 0;
    while i < xs.len()
        invariant
            *a == Value::Array(*xs),
            *b == Value::Array(*ys),
            xs.len() == ys.len(),
            0 <= i <= xs.len(),
            xm == items_view(xs@),
            ym == items_view(ys@),
            xm.len() == xs.len(),
            ym.len() == ys.len(),
            forall|j: int| 0 <= j < i ==> value_equal(#[trigger] xm[j], ym[j]),
        decreases xs.len() - i,
    {
        proof {
            assert(decreases_to!(*a => a->Array_0));
            assert(decreases_to!(*xs => xs@));
            assert(decreases_to!(xs@ => xs@[i as int]));
            assert(xm[i as int] == xs@[i as int]@);
            assert(ym[i as int] == ys@[i as int]@);
        }
        if !check_value_equal(&xs[i], &ys[i]) {
            return false;
        }
        i += 1;
    }
    true
}

/// Equality of two objects: as many own keys, and every key of `a`
/// present in `b` with an equal value, up to the first that fails.
pub fn check_object_equal(a: &Value, b: &Value) -> (r: bool)
    ensures
        r == object_equal(a@, b@),
    decreases *a, 0int,
{
    let (xs, ys) = match (a, b) {
        (Value::Object(xs), Value::Object(ys)) => (xs, ys),
        _ => return false,
    };
    let ghost xm = entries_view(xs@);
    let ghost ym = entries_view(ys@);
    assert(xm.len() == xs.len());
    assert(ym.len() == ys.len());
    if xs.len() != ys.len() {
        return false;
    }
    let mut i: usize = 0;
    while i < xs.len()
        invariant
            *a == Value::Object(*xs),
            *b == Value::Object(*ys),
            xm == entries_view(xs@),
            ym == entries_view(ys@),
            xm.len() == xs.len(),
            ym.len() == ys.len(),
            xs.len() == ys.len(),
            0 <= i <= xs.len(),
            forall|j: int|
                0 <= j < i ==> {
                    &&& has_key(ym, (#[trigger] xm[j]).0)
                    &&& value_equal(xm[j].1, lookup(ym, xm[j].0))
                },
        decreases xs.len() - i,
    {
        proof {
            assert(xm[i as int] == (xs@[i as int].0@, xs@[i as int].1@));
        }
        match find_key(ys, &xs[i].0) {
            None => {
                return false;
            },
            Some(p) => {
                proof {
                    lemma_lookup_at(ym, xs@[i as int].0@, p as int);
                    assert(ym[p as int] == (ys@[p as int].0@, ys@[p as int].1@));
                    assert(decreases_to!(*a => a->Object_0));
                    assert(decreases_to!(*xs => xs@));
                    assert(decreases_to!(xs@ => xs@[i as int]));
                    assert(decreases_to!(xs@[i as int] => xs@[i as int].1));
                }
                if !check_value_equal(&xs[i].1, &ys[p].1) {
                    return false;
                }
            },
        }
        i += 1;
    }
    true
}

/// Whether `data` contains `pattern` in the sense of `object_match`.
pub fn check_object_match(data: &Value, pattern: &Value) -> (r: bool)
    ensures
        r == object_match(data@, pattern@),
    decreases *pattern,
{
    let ps = match pattern {
        Value::Object(ps) => ps,
        _ => return check_value_equal(data, pattern),
    };
    let ds = match data {
        Value::Object(ds) => ds,
        _ => return false,
    };
    let ghost pm = entries_view(ps@);
    let ghost dm = entries_view(ds@);
    assert(pm.len() == ps.len());
    let mut i: usize = 0;
    while i < ps.len()
        invariant
            *pattern == Value::Object(*ps),
            *data == Value::Object(*ds),
            pm == entries_view(ps@),
            dm == entries_view(ds@),
            pm.len() == ps.len(),
            0 <= i <= ps.len(),
            forall|j: int|
                0 <= j < i ==> {
                    &&& has_key(dm, (#[trigger] pm[j]).0)
                    &&& object_match(lookup(dm, pm[j].0), pm[j].1)
                },
        decreases ps.len() - i,
    {
        proof {
            assert(pm[i as int] == (ps@[i as int].0@, ps@[i as int].1@));
        }
        match find_key(ds, &ps[i].0) {
            None => {
                return false;
            },
            Some(p) => {
                proof {
                    lemma_lookup_at(dm, ps@[i as int].0@, p as int);
                    assert(dm[p as int] == (ds@[p as int].0@, ds@[p as int].1@));
                    assert(decreases_to!(*pattern => pattern->Object_0));
                    assert(decreases_to!(*ps => ps@));
                    assert(decreases_to!(ps@ => ps@[i as int]));
                    assert(decreases_to!(ps@[i as int] => ps@[i as int].1));
                }
                if !check_object_match(&ds[p].1, &ps[i].1) {
                    return false;
                }
            },
        }
        i += 1;
    }
    true
}

} // verus!

verus! {

/// What a predicate answer means for the match: the truthiness of what the
/// predicate returned, or `PredicateFailed` when invoking it faulted
/// (`None`).
pub open spec fn predicate_verdict(outcome: Option<bool>) -> Result<bool, MatchError> {
    match outcome {
        Some(truthy) => Ok(truthy),
        None => Err(MatchError::PredicateFailed),
    }
}

/// The result of matching `data` against `pattern`, where `outcome` is
/// what invoking the predicate answered. Only a predicate pattern reads
/// `outcome`; one whose callee is not callable fails.
pub open spec fn pattern_result(data: ValueModel, pattern: PatternModel, outcome: Option<bool>) -> Result<bool, MatchError> {
    match pattern {
        PatternModel::Value(p) => Ok(value_equal(data, p)),
        PatternModel::Object(p) => Ok(object_match(data, p)),
        PatternModel::Function(f) => match f {
            ValueModel::Callable(_) => predicate_verdict(outcome),
            _ => Err(MatchError::PredicateFailed),
        },
        PatternModel::Wildcard => Ok(true),
    }
}

/// `outcome` is an answer that matching `data` against `pattern` can get
/// from `invoke`: a pattern with a callable predicate invokes it once on
/// `data`, and any other pattern invokes nothing.
pub open spec fn possible_outcome<F: Fn(u64, &Value) -> Option<bool>>(
    invoke: F,
    data: Value,
    pattern: PatternModel,
    outcome: Option<bool>,
) -> bool {
    match pattern {
        PatternModel::Function(ValueModel::Callable(h)) => invoke.ensures((h, &data), outcome),
        _ => outcome is None,
    }
}

/// `r` is a result that matching `data` against `pattern` can give when
/// predicates are invoked through `invoke`.
pub open spec fn possible_result<F: Fn(u64, &Value) -> Option<bool>>(
    invoke: F,
    data: Value,
    pattern: PatternModel,
    r: Result<bool, MatchError>,
) -> bool {
    exists|outcome: Option<bool>|
        possible_outcome(invoke, data, pattern, outcome) && r == pattern_result(
            data@,
            pattern,
            outcome,
        )
}

/// Matches `data` against `pattern`, given the answer `outcome` of the
/// pattern's predicate (read only by a predicate pattern).
pub fn check_pattern_with(
    data: &Value,
    pattern: &Pattern,
    outcome: Option<bool>,
) -> (r: Result<bool, MatchError>)
    ensures
        r == pattern_result(data@, pattern@, outcome),
{
    match pattern {
        Pattern::Value(p) => Ok(check_value_equal(data, p)),
        Pattern::Object(p) => Ok(check_object_match(data, p)),
        Pattern::Function(f) => match f {
            Value::Callable(_) => match outcome {
                Some(truthy) => Ok(truthy),
                None => Err(MatchError::PredicateFailed),
            },
            _ => Err(MatchError::PredicateFailed),
        },
        Pattern::Wildcard => Ok(true),
    }
}

/// Invokes the predicate `func` on `data` through `invoke`, which answers
/// with the truthiness of what the predicate returned, or `None` when the
/// invocation faulted. A `func` that is not callable fails.
pub fn check_function_match<F: Fn(u64, &Value) -> Option<bool>>(
    data: &Value,
    func: &Value,
    invoke: &F,
) -> (r: Result<bool, MatchError>)
    requires
        forall|h: u64, v: &Value| invoke.requires((h, v)),
    ensures
        possible_result(*invoke, *data, PatternModel::Function(func@), r),
{
    match func {
        Value::Callable(h) => {
            let outcome = invoke(*h, data);
            let verdict = match outcome {
                Some(truthy) => Ok(truthy),
                None => Err(MatchError::PredicateFailed),
            };
            assert(func@ == ValueModel::Callable(*h));
            assert(possible_outcome(*invoke, *data, PatternModel::Function(func@), outcome));
            assert(verdict == pattern_result(data@, PatternModel::Function(func@), outcome));
            verdict
        },
        _ => {
            assert(!(func@ is Callable));
            let verdict = Err(MatchError::PredicateFailed);
            assert(possible_outcome(*invoke, *data, PatternModel::Function(func@), None));
            assert(verdict == pattern_result(data@, PatternModel::Function(func@), None));
            verdict
        },
    }
}

/// Matches `data` against `pattern`, invoking a predicate pattern's
/// callable through `invoke`. Only a predicate pattern calls `invoke`;
/// every other pattern gives `pattern_result` exactly, and a wildcard
/// always matches.
pub fn check_pattern<F: Fn(u64, &Value) -> Option<bool>>(
    data: &Value,
    pattern: &Pattern,
    invoke: &F,
) -> (r: Result<bool, MatchError>)
    requires
        forall|h: u64, v: &Value| invoke.requires((h, v)),
    ensures
        possible_result(*invoke, *data, pattern@, r),
        !(pattern is Function) ==> r == pattern_result(data@, pattern@, None),
        pattern is Wildcard ==> r == Ok::<bool, MatchError>(true),
{
    match pattern {
        Pattern::Function(func) => check_function_match(data, func, invoke),
        _ => {
            let r = check_pattern_with(data, pattern, None);
            assert(possible_outcome(*invoke, *data, pattern@, None));
            r
        },
    }
}

} // verus!
