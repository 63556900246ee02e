use vstd::prelude::*;

use crate::value::{Value, ValueModel};

verus! {

/// How one branch decides whether the input matches.
#[derive(Debug, PartialEq)]
pub enum Pattern {
    /// Matches a value deeply equal to the one held.
    Value(Value),
    /// Matches a value that structurally contains the one held.
    Object(Value),
    /// Matches when the held callable, invoked on the input, answers truthy.
    Function(Value),
    /// Matches anything.
    Wildcard,
}

/// The mathematical content of a `Pattern`.
pub ghost enum PatternModel {
    Value(ValueModel),
    Object(ValueModel),
    Function(ValueModel),
    Wildcard,
}

impl View for Pattern {
    type V = PatternModel;

    open spec fn view(&self) -> PatternModel {
        match self {
            Pattern::Value(v) => PatternModel::Value(v@),
            Pattern::Object(v) => PatternModel::Object(v@),
            Pattern::Function(v) => PatternModel::Function(v@),
            Pattern::Wildcard => PatternModel::Wildcard,
        }
    }
}

/// A pattern with the value to hand back when it is the first to match.
#[derive(Debug, PartialEq)]
pub struct MatchBranch {
    pub pattern: Pattern,
    pub result: Value,
}

/// The mathematical content of a `MatchBranch`.
pub ghost struct BranchModel {
    pub pattern: PatternModel,
    pub result: ValueModel,
}

impl View for MatchBranch {
    type V = BranchModel;

    open spec fn view(&self) -> BranchModel {
        BranchModel { pattern: self.pattern@, result: self.result@ }
    }
}

/// Why parsing or matching failed.
#[derive(Debug, PartialEq, Eq)]
pub enum MatchError {
    /// The pattern or branch list is not an array.
    NotAnArray,
    /// A pattern description has no `type` field holding a string.
    MissingOrInvalidType,
    /// A pattern description names a type that is none of the four known.
    UnknownPatternType(String),
    /// A branch description lacks the named field.
    MissingField(String),
    /// Invoking a predicate faulted, or its callee cannot be invoked.
    PredicateFailed,
}

/// The mathematical content of a `MatchError`.
pub ghost enum MatchErrorModel {
    NotAnArray,
    MissingOrInvalidType,
    UnknownPatternType(Seq<char>),
    MissingField(Seq<char>),
    PredicateFailed,
}

impl View for MatchError {
    type V = MatchErrorModel;

    open spec fn view(&self) -> MatchErrorModel {
        match self {
            MatchError::NotAnArray => MatchErrorModel::NotAnArray,
            MatchError::MissingOrInvalidType => MatchErrorModel::MissingOrInvalidType,
            MatchError::UnknownPatternType(s) => MatchErrorModel::UnknownPatternType(s@),
            MatchError::MissingField(s) => MatchErrorModel::MissingField(s@),
            MatchError::PredicateFailed => MatchErrorModel::PredicateFailed,
        }
    }
}

} // verus!
