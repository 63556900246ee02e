use vstd::prelude::*;
use vstd::set_lib::lemma_subset_equality;

use crate::matcher::{pattern_result, possible_outcome, possible_result, value_equal};
use crate::types::{MatchError, PatternModel};
use crate::value::{first_key_at, has_key, keys_distinct, lemma_lookup_at, lookup, Value, ValueModel};

verus! {

/// A wildcard matches every value, whatever the predicate callback does:
/// the one result that matching against it can give is `Ok(true)`.
pub proof fn lemma_wildcard_matches<F: Fn(u64, &Value) -> Option<bool>>(invoke: F, data: Value)
    ensures
        possible_result(invoke, data, PatternModel::Wildcard, Ok(true)),
        forall|r: Result<bool, MatchError>|
            possible_result(invoke, data, PatternModel::Wildcard, r) ==> r == Ok::<
                bool,
                MatchError,
            >(true),
{
    assert(possible_outcome(invoke, data, PatternModel::Wildcard, None));
    assert(Ok::<bool, MatchError>(true) == pattern_result(data@, PatternModel::Wildcard, None));
}

/// In an object whose keys are distinct, each entry's key looks up that
/// entry's value.
proof fn lemma_lookup_own_key(entries: Seq<(Seq<char>, ValueModel)>, i: int)
    requires
        keys_distinct(entries),
        0 <= i < entries.len(),
    ensures
        has_key(entries, entries[i].0),
        lookup(entries, entries[i].0) == entries[i].1,
{
    assert(first_key_at(entries, entries[i].0, i));
    lemma_lookup_at(entries, entries[i].0, i);
}

/// Two objects with distinct keys and as many entries, where every key of
/// the first is a key of the second, have the same keys.
proof fn lemma_keys_cover(xs: Seq<(Seq<char>, ValueModel)>, ys: Seq<(Seq<char>, ValueModel)>)
    requires
        keys_distinct(xs),
        keys_distinct(ys),
        xs.len() == ys.len(),
        forall|i: int| 0 <= i < xs.len() ==> has_key(ys, (#[trigger] xs[i]).0),
    ensures
        forall|j: int| 0 <= j < ys.len() ==> has_key(xs, (#[trigger] ys[j]).0),
{
    broadcast use vstd::seq_lib::seq_to_set_is_finite;

    let kx = xs.map_values(|e: (Seq<char>, ValueModel)| e.0);
    let ky = ys.map_values(|e: (Seq<char>, ValueModel)| e.0);
    kx.unique_seq_to_set();
    ky.unique_seq_to_set();
    assert forall|k: Seq<char>| kx.to_set().contains(k) implies ky.to_set().contains(k) by {
        let i = choose|i: int| 0 <= i < kx.len() && kx[i] == k;
        assert(xs[i].0 == k);
        let j = choose|j: int| 0 <= j < ys.len() && ys[j].0 == k;
        assert(ky[j] == k);
    }
    lemma_subset_equality(kx.to_set(), ky.to_set());
    assert forall|j: int| 0 <= j < ys.len() implies has_key(xs, (#[trigger] ys[j]).0) by {
        assert(ky[j] == ys[j].0);
        assert(ky.to_set().contains(ys[j].0));
        assert(kx.to_set().contains(ys[j].0));
        let i = choose|i: int| 0 <= i < kx.len() && kx[i] == ys[j].0;
        assert(xs[i].0 == ys[j].0);
    }
}

/// Every value without callables equals itself.
pub proof fn lemma_value_equal_reflexive(v: ValueModel)
    requires
        v.wf(),
        v.callable_free(),
    ensures
        value_equal(v, v),
    decreases v,
{
    match v {
        ValueModel::Array(xs) => {
            assert forall|i: int| 0 <= i < xs.len() implies value_equal(
                #[trigger] xs[i],
                xs[i],
            ) by {
                lemma_value_equal_reflexive(xs[i]);
            }
        },
        ValueModel::Object(xs) => {
            assert forall|i: int| 0 <= i < xs.len() implies {
                &&& has_key(xs, (#[trigger] xs[i]).0)
                &&& value_equal(xs[i].1, lookup(xs, xs[i].0))
            } by {
                lemma_lookup_own_key(xs, i);
                lemma_value_equal_reflexive(xs[i].1);
            }
        },
        _ => {},
    }
}

/// Deep equality is symmetric.
pub proof fn lemma_value_equal_symmetric(a: ValueModel, b: ValueModel)
    requires
        a.wf(),
        b.wf(),
    ensures
        value_equal(a, b) == value_equal(b, a),
    decreases a,
{
    match (a, b) {
        (ValueModel::Array(xs), ValueModel::Array(ys)) => {
            if xs.len() == ys.len() {
                assert forall|i: int| 0 <= i < xs.len() implies value_equal(#[trigger] xs[i], ys[i])
                    == value_equal(ys[i], xs[i]) by {
                    lemma_value_equal_symmetric(xs[i], ys[i]);
                }
            }
        },
        (ValueModel::Object(xs), ValueModel::Object(ys)) => {
            if value_equal(a, b) {
                lemma_keys_cover(xs, ys);
                assert forall|j: int| 0 <= j < ys.len() implies {
                    &&& has_key(xs, (#[trigger] ys[j]).0)
                    &&& value_equal(ys[j].1, lookup(xs, ys[j].0))
                } by {
                    let i = choose|i: int| 0 <= i < xs.len() && xs[i].0 == ys[j].0;
                    lemma_lookup_own_key(xs, i);
                    lemma_lookup_own_key(ys, j);
                    assert(value_equal(xs[i].1, lookup(ys, xs[i].0)));
                    lemma_value_equal_symmetric(xs[i].1, ys[j].1);
                }
            }
            if value_equal(b, a) {
                lemma_keys_cover(ys, xs);
                assert forall|i: int| 0 <= i < xs.len() implies {
                    &&& has_key(ys, (#[trigger] xs[i]).0)
                    &&& value_equal(xs[i].1, lookup(ys, xs[i].0))
                } by {
                    let j = choose|j: int| 0 <= j < ys.len() && ys[j].0 == xs[i].0;
                    lemma_lookup_own_key(xs, i);
                    lemma_lookup_own_key(ys, j);
                    assert(value_equal(ys[j].1, lookup(xs, ys[j].0)));
                    lemma_value_equal_symmetric(xs[i].1, ys[j].1);
                }
            }
        },
        _ => {},
    }
}

} // verus!
