use vstd::prelude::*;

use crate::matcher::{check_pattern, possible_result};
use crate::parser::{
    branches_view, parse_branches, parse_patterns, parsed_branches, parsed_patterns, patterns_view,
};
use crate::types::{BranchModel, MatchBranch, MatchError, PatternModel};
use crate::value::{Value, ValueModel};

verus! {

/// Matching `data` against each of the first `n` patterns can give "no
/// match".
pub open spec fn misses_before<F: Fn(u64, &Value) -> Option<bool>>(
    invoke: F,
    data: Value,
    patterns: Seq<PatternModel>,
    n: int,
) -> bool {
    forall|j: int| 0 <= j < n ==> possible_result(invoke, data, #[trigger] patterns[j], Ok(false))
}

/// `r` is a result that first-match dispatch of `data` over `patterns` can
/// give: the position of the first pattern that matches, `None` when none
/// does, or the error of the first pattern whose match failed. Patterns
/// after the one that decides are not tried.
pub open spec fn possible_dispatch<F: Fn(u64, &Value) -> Option<bool>>(
    invoke: F,
    data: Value,
    patterns: Seq<PatternModel>,
    r: Result<Option<usize>, MatchError>,
) -> bool {
    match r {
        Ok(Some(i)) => {
            &&& i < patterns.len()
            &&& misses_before(invoke, data, patterns, i as int)
            &&& possible_result(invoke, data, patterns[i as int], Ok(true))
        },
        Ok(None) => misses_before(invoke, data, patterns, patterns.len() as int),
        Err(e) => exists|i: int|
            0 <= i < patterns.len() && misses_before(invoke, data, patterns, i)
                && #[trigger] possible_result(invoke, data, patterns[i], Err(e)),
    }
}

/// The patterns of a list of branches.
pub open spec fn branch_patterns(branches: Seq<BranchModel>) -> Seq<PatternModel> {
    branches.map_values(|b: BranchModel| b.pattern)
}

/// The value that dispatch over `branches` hands back when it settles on
/// `chosen`: that branch's result, or `Undefined` when none matched.
pub open spec fn chosen_result(branches: Seq<BranchModel>, chosen: Option<usize>) -> ValueModel {
    match chosen {
        Some(i) => branches[i as int].result,
        None => ValueModel::Undefined,
    }
}

/// `r` is a result that first-match dispatch of `data` over `branches`
/// can give: the chosen branch's result, `Undefined` when none matched, or
/// the error of the first pattern whose match failed.
pub open spec fn possible_evaluation<F: Fn(u64, &Value) -> Option<bool>>(
    invoke: F,
    data: Value,
    branches: Seq<BranchModel>,
    r: Result<Value, MatchError>,
) -> bool {
    match r {
        Ok(v) => exists|chosen: Option<usize>|
            possible_dispatch(invoke, data, branch_patterns(branches), Ok(chosen)) && v@
                == #[trigger] chosen_result(branches, chosen),
        Err(e) => possible_dispatch(invoke, data, branch_patterns(branches), Err(e)),
    }
}

/// Position of the first of `patterns` that `data` matches, or `None`.
pub fn find_match<F: Fn(u64, &Value) -> Option<bool>>(
    data: &Value,
    patterns: &Vec<crate::types::Pattern>,
    invoke: &F,
) -> (r: Result<Option<usize>, MatchError>)
    requires
        forall|h: u64, v: &Value| invoke.requires((h, v)),
    ensures
        possible_dispatch(*invoke, *data, patterns_view(patterns@), r),
{
    let ghost pm = patterns_view(patterns@);
    let mut i: usize = 0;
    while i < patterns.len()
        invariant
            forall|h: u64, v: &Value| invoke.requires((h, v)),
            pm == patterns_view(patterns@),
            pm.len() == patterns.len(),
            0 <= i <= patterns.len(),
            misses_before(*invoke, *data, pm, i as int),
        decreases patterns.len() - i,
    {
        assert(pm[i as int] == patterns@[i as int]@);
        match check_pattern(data, &patterns[i], invoke) {
            Ok(true) => {
                return Ok(Some(i));
            },
            Ok(false) => {},
            Err(e) => {
                assert(possible_result(*invoke, *data, pm[i as int], Err(e)));
                return Err(e);
            },
        }
        i += 1;
    }
    Ok(None)
}

/// Position of the first of `branches` whose pattern `data` matches, or
/// `None`.
pub fn find_branch<F: Fn(u64, &Value) -> Option<bool>>(
    data: &Value,
    branches: &Vec<MatchBranch>,
    invoke: &F,
) -> (r: Result<Option<usize>, MatchError>)
    requires
        forall|h: u64, v: &Value| invoke.requires((h, v)),
    ensures
        possible_dispatch(*invoke, *data, branch_patterns(branches_view(branches@)), r),
{
    let ghost pm = branch_patterns(branches_view(branches@));
    let mut i: usize = 0;
    while i < branches.len()
        invariant
            forall|h: u64, v: &Value| invoke.requires((h, v)),
            pm == branch_patterns(branches_view(branches@)),
            pm.len() == branches.len(),
            0 <= i <= branches.len(),
            misses_before(*invoke, *data, pm, i as int),
        decreases branches.len() - i,
    {
        assert(pm[i as int] == branches@[i as int].pattern@);
        match check_pattern(data, &branches[i].pattern, invoke) {
            Ok(true) => {
                return Ok(Some(i));
            },
            Ok(false) => {},
            Err(e) => {
                assert(possible_result(*invoke, *data, pm[i as int], Err(e)));
                return Err(e);
            },
        }
        i += 1;
    }
    Ok(None)
}

/// The result of the first of `branches` whose pattern `data` matches, or
/// `Undefined` when none does.
pub fn evaluate<F: Fn(u64, &Value) -> Option<bool>>(
    data: &Value,
    branches: &Vec<MatchBranch>,
    invoke: &F,
) -> (r: Result<Value, MatchError>)
    requires
        forall|h: u64, v: &Value| invoke.requires((h, v)),
    ensures
        possible_evaluation(*invoke, *data, branches_view(branches@), r),
{
    match find_branch(data, branches, invoke) {
        Ok(Some(i)) => {
            let v = branches[i].result.clone();
            assert(v@ == chosen_result(branches_view(branches@), Some(i)));
            Ok(v)
        },
        Ok(None) => {
            assert(ValueModel::Undefined == chosen_result(branches_view(branches@), None));
            Ok(Value::Undefined)
        },
        Err(e) => Err(e),
    }
}

/// Parses `patterns`, a list of pattern descriptions, and gives the
/// position of the first that `data` matches, or `None`. A parse error
/// fails the whole call before any pattern is tried.
pub fn match_pattern<F: Fn(u64, &Value) -> Option<bool>>(
    data: &Value,
    patterns: &Value,
    invoke: &F,
) -> (r: Result<Option<usize>, MatchError>)
    requires
        forall|h: u64, v: &Value| invoke.requires((h, v)),
    ensures
        match parsed_patterns(patterns@) {
            Ok(ps) => possible_dispatch(*invoke, *data, ps, r),
            Err(e) => r is Err && r->Err_0@ == e,
        },
{
    let parsed = match parse_patterns(patterns) {
        Ok(parsed) => parsed,
        Err(e) => return Err(e),
    };
    find_match(data, &parsed, invoke)
}

/// Parses `branches`, a list of branch descriptions, and gives the result
/// of the first whose pattern `data` matches, or `Undefined`. A parse
/// error fails the whole call before any pattern is tried.
pub fn match_branches<F: Fn(u64, &Value) -> Option<bool>>(
    data: &Value,
    branches: &Value,
    invoke: &F,
) -> (r: Result<Value, MatchError>)
    requires
        forall|h: u64, v: &Value| invoke.requires((h, v)),
    ensures
        match parsed_branches(branches@) {
            Ok(bs) => possible_evaluation(*invoke, *data, bs, r),
            Err(e) => r is Err && r->Err_0@ == e,
        },
{
    let parsed = match parse_branches(branches) {
        Ok(parsed) => parsed,
        Err(e) => return Err(e),
    };
    evaluate(data, &parsed, invoke)
}

} // verus!
