use vstd::prelude::*;

use crate::types::{BranchModel, MatchBranch, MatchError, MatchErrorModel, Pattern, PatternModel};
use crate::value::{find_key, get_property, has_key, items_view, lookup, Value, ValueModel};

verus! {

/// The pattern that a description denotes, or why it denotes none.
///
/// A description is an object whose `type` property is a string naming
/// the kind of pattern; the pattern's operand is read from `value`,
/// `pattern` or `func`, and is `Undefined` where that property is absent.
pub open spec fn parsed_pattern(desc: ValueModel) -> Result<PatternModel, MatchErrorModel> {
    match desc {
        ValueModel::Object(es) => match lookup(es, "type"@) {
            ValueModel::Str(t) => if t == "Value"@ {
                Ok(PatternModel::Value(lookup(es, "value"@)))
            } else if t == "Object"@ {
                Ok(PatternModel::Object(lookup(es, "pattern"@)))
            } else if t == "Function"@ {
                Ok(PatternModel::Function(lookup(es, "func"@)))
            } else if t == "Wildcard"@ {
                Ok(PatternModel::Wildcard)
            } else {
                Err(MatchErrorModel::UnknownPatternType(t))
            },
            _ => Err(MatchErrorModel::MissingOrInvalidType),
        },
        _ => Err(MatchErrorModel::MissingOrInvalidType),
    }
}

/// The branch that a description denotes, or why it denotes none: an
/// object with a `pattern` property holding a pattern description and a
/// `result` property holding the value to hand back.
pub open spec fn parsed_branch(desc: ValueModel) -> Result<BranchModel, MatchErrorModel> {
    match desc {
        ValueModel::Object(es) => if !has_key(es, "pattern"@) {
            Err(MatchErrorModel::MissingField("pattern"@))
        } else if !has_key(es, "result"@) {
            Err(MatchErrorModel::MissingField("result"@))
        } else {
            match parsed_pattern(lookup(es, "pattern"@)) {
                Ok(p) => Ok(BranchModel { pattern: p, result: lookup(es, "result"@) }),
                Err(e) => Err(e),
            }
        },
        _ => Err(MatchErrorModel::MissingField("pattern"@)),
    }
}

/// Parses every item in order, failing with the error of the first item
/// that fails.
pub open spec fn parse_each<T>(
    items: Seq<ValueModel>,
    parse: spec_fn(ValueModel) -> Result<T, MatchErrorModel>,
) -> Result<Seq<T>, MatchErrorModel>
    decreases items.len(),
{
    if items.len() == 0 {
        Ok(Seq::empty())
    } else {
        match parse_each(items.drop_last(), parse) {
            Ok(done) => match parse(items.last()) {
                Ok(x) => Ok(done.push(x)),
                Err(e) => Err(e),
            },
            Err(e) => Err(e),
        }
    }
}

/// The patterns that a list of descriptions denotes.
pub open spec fn parsed_patterns(list: ValueModel) -> Result<Seq<PatternModel>, MatchErrorModel> {
    match list {
        ValueModel::Array(items) => parse_each(items, |d: ValueModel| parsed_pattern(d)),
        _ => Err(MatchErrorModel::NotAnArray),
    }
}

/// The branches that a list of descriptions denotes.
pub open spec fn parsed_branches(list: ValueModel) -> Result<Seq<BranchModel>, MatchErrorModel> {
    match list {
        ValueModel::Array(items) => parse_each(items, |d: ValueModel| parsed_branch(d)),
        _ => Err(MatchErrorModel::NotAnArray),
    }
}

/// Once a prefix fails, the whole list fails with the same error.
proof fn lemma_parse_each_err<T>(
    items: Seq<ValueModel>,
    parse: spec_fn(ValueModel) -> Result<T, MatchErrorModel>,
    n: int,
)
    requires
        0 <= n <= items.len(),
        parse_each(items.take(n), parse) is Err,
    ensures
        parse_each(items, parse) == parse_each(items.take(n), parse),
    decreases items.len(),
{
    if n == items.len() {
        assert(items.take(n) =~= items);
    } else {
        assert(items.drop_last().take(n) =~= items.take(n));
        lemma_parse_each_err(items.drop_last(), parse, n);
    }
}

/// Parses one pattern description.
pub fn parse_pattern(desc: &Value) -> (r: Result<Pattern, MatchError>)
    ensures
        match r {
            Ok(p) => parsed_pattern(desc@) == Ok::<PatternModel, MatchErrorModel>(p@),
            Err(e) => parsed_pattern(desc@) == Err::<PatternModel, MatchErrorModel>(e@),
        },
{
    let entries = match desc {
        Value::Object(es) => es,
        _ => return Err(MatchError::MissingOrInvalidType),
    };
    let tag = get_property(entries, &String::from_str("type"));
    let t = match tag {
        Value::Str(t) => t,
        _ => return Err(MatchError::MissingOrInvalidType),
    };
    if t == String::from_str("Value") {
        Ok(Pattern::Value(get_property(entries, &String::from_str("value"))))
    } else if t == String::from_str("Object") {
        Ok(Pattern::Object(get_property(entries, &String::from_str("pattern"))))
    } else if t == String::from_str("Function") {
        Ok(Pattern::Function(get_property(entries, &String::from_str("func"))))
    } else if t == String::from_str("Wildcard") {
        Ok(Pattern::Wildcard)
    } else {
        Err(MatchError::UnknownPatternType(t))
    }
}

/// Parses one branch description.
pub fn parse_branch(desc: &Value) -> (r: Result<MatchBranch, MatchError>)
    ensures
        match r {
            Ok(b) => parsed_branch(desc@) == Ok::<BranchModel, MatchErrorModel>(b@),
            Err(e) => parsed_branch(desc@) == Err::<BranchModel, MatchErrorModel>(e@),
        },
{
    let pattern_key = String::from_str("pattern");
    let result_key = String::from_str("result");
    let entries = match desc {
        Value::Object(es) => es,
        _ => return Err(MatchError::MissingField(pattern_key)),
    };
    if find_key(entries, &pattern_key).is_none() {
        return Err(MatchError::MissingField(pattern_key));
    }
    if find_key(entries, &result_key).is_none() {
        return Err(MatchError::MissingField(result_key));
    }
    let pattern = parse_pattern(&get_property(entries, &pattern_key))?;
    Ok(MatchBranch { pattern, result: get_property(entries, &result_key) })
}

/// The models of a list of patterns.
pub open spec fn patterns_view(ps: Seq<Pattern>) -> Seq<PatternModel> {
    ps.map_values(|p: Pattern| p@)
}

/// The models of a list of branches.
pub open spec fn branches_view(bs: Seq<MatchBranch>) -> Seq<BranchModel> {
    bs.map_values(|b: MatchBranch| b@)
}

/// Parses a list of pattern descriptions, in order, stopping at the first
/// that fails.
pub fn parse_patterns(list: &Value) -> (r: Result<Vec<Pattern>, MatchError>)
    ensures
        match r {
            Ok(ps) => parsed_patterns(list@) == Ok::<Seq<PatternModel>, MatchErrorModel>(
                patterns_view(ps@),
            ),
            Err(e) => parsed_patterns(list@) == Err::<Seq<PatternModel>, MatchErrorModel>(e@),
        },
{
    let items = match list {
        Value::Array(items) => items,
        _ => return Err(MatchError::NotAnArray),
    };
    let ghost im = items_view(items@);
    let ghost parse = |d: ValueModel| parsed_pattern(d);
    let mut out: Vec<Pattern> = Vec::new();
    let mut i: usize = 0;
    assert(im.take(0) =~= Seq::<ValueModel>::empty());
    assert(patterns_view(out@) =~= Seq::<PatternModel>::empty());
    while i < items.len()
        invariant
            *list == Value::Array(*items),
            im == items_view(items@),
            im.len() == items.len(),
            parse == (|d: ValueModel| parsed_pattern(d)),
            0 <= i <= items.len(),
            parse_each(im.take(i as int), parse) == Ok::<Seq<PatternModel>, MatchErrorModel>(
                patterns_view(out@),
            ),
        decreases items.len() - i,
    {
        assert(im.take(i + 1).drop_last() =~= im.take(i as int));
        assert(im[i as int] == items@[i as int]@);
        assert(im.take(i + 1).last() == im[i as int]);
        assert(parse(im[i as int]) == parsed_pattern(im[i as int]));
        match parse_pattern(&items[i]) {
            Ok(p) => {
                assert(parse_each(im.take(i + 1), parse) == Ok::<Seq<_>, MatchErrorModel>(
                    patterns_view(out@).push(p@),
                ));
                let ghost before = out@;
                out.push(p);
                assert(patterns_view(out@) =~= patterns_view(before).push(p@));
            },
            Err(e) => {
                proof {
                    lemma_parse_each_err(im, parse, i + 1);
                }
                return Err(e);
            },
        }
        i += 1;
    }
    assert(im.take(i as int) =~= im);
    Ok(out)
}

/// Parses a list of branch descriptions, in order, stopping at the first
/// that fails.
pub fn parse_branches(list: &Value) -> (r: Result<Vec<MatchBranch>, MatchError>)
    ensures
        match r {
            Ok(bs) => parsed_branches(list@) == Ok::<Seq<BranchModel>, MatchErrorModel>(
                branches_view(bs@),
            ),
            Err(e) => parsed_branches(list@) == Err::<Seq<BranchModel>, MatchErrorModel>(e@),
        },
{
    let items = match list {
        Value::Array(items) => items,
        _ => return Err(MatchError::NotAnArray),
    };
    let ghost im = items_view(items@);
    let ghost parse = |d: ValueModel| parsed_branch(d);
    let mut out: Vec<MatchBranch> = Vec::new();
    let mut i: usize = 0;
    assert(im.take(0) =~= Seq::<ValueModel>::empty());
    assert(branches_view(out@) =~= Seq::<BranchModel>::empty());
    while i < items.len()
        invariant
            *list == Value::Array(*items),
            im == items_view(items@),
            im.len() == items.len(),
            parse == (|d: ValueModel| parsed_branch(d)),
            0 <= i <= items.len(),
            parse_each(im.take(i as int), parse) == Ok::<Seq<BranchModel>, MatchErrorModel>(
                branches_view(out@),
            ),
        decreases items.len() - i,
    {
        assert(im.take(i + 1).drop_last() =~= im.take(i as int));
        assert(im[i as int] == items@[i as int]@);
        assert(im.take(i + 1).last() == im[i as int]);
        assert(parse(im[i as int]) == parsed_branch(im[i as int]));
        match parse_branch(&items[i]) {
            Ok(b) => {
                assert(parse_each(im.take(i + 1), parse) == Ok::<Seq<_>, MatchErrorModel>(
                    branches_view(out@).push(b@),
                ));
                let ghost before = out@;
                out.push(b);
                assert(branches_view(out@) =~= branches_view(before).push(b@));
            },
            Err(e) => {
                proof {
                    lemma_parse_each_err(im, parse, i + 1);
                }
                return Err(e);
            },
        }
        i += 1;
    }
    assert(im.take(i as int) =~= im);
    Ok(out)
}

} // verus!
