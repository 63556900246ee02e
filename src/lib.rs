//! A structural pattern matcher over loosely typed, JSON-like values.
//!
//! A list of patterns (or of pattern/result branches) is parsed from an
//! untyped description, and an input value is tested against each in
//! order; the first that matches decides. Predicate patterns call back
//! into the host through a closure that answers with the truthiness of the
//! predicate's result.

pub mod dispatch;
pub mod laws;
pub mod matcher;
pub mod parser;
pub mod types;
pub mod value;

pub use dispatch::{evaluate, find_branch, find_match, match_branches, match_pattern};
pub use laws::{lemma_value_equal_reflexive, lemma_value_equal_symmetric, lemma_wildcard_matches};
pub use matcher::{
    check_array_equal, check_function_match, check_object_equal, check_object_match,
    check_pattern, check_pattern_with, check_value_equal,
};
pub use parser::{parse_branch, parse_branches, parse_pattern, parse_patterns};
pub use types::{MatchBranch, MatchError, Pattern};
pub use value::{find_key, get_property, Value};
