use vstd::prelude::*;

verus! {

/// A dynamically typed datum, as a host hands it to the matcher.
///
/// Numbers are held as integers. An object is a list of own properties,
/// each a key with its value; a well-formed object holds each key once
/// (see `ValueModel::wf`). A callable is a handle that the host resolves
/// when a predicate pattern invokes it.
#[derive(Debug, PartialEq)]
pub enum Value {
    Null,
    Undefined,
    Number(i64),
    Str(String),
    Bool(bool),
    Array(Vec<Value>),
    Object(Vec<(String, Value)>),
    Callable(u64),
}

/// The mathematical content of a `Value`.
pub ghost enum ValueModel {
    Null,
    Undefined,
    Number(int),
    Str(Seq<char>),
    Bool(bool),
    Array(Seq<ValueModel>),
    Object(Seq<(Seq<char>, ValueModel)>),
    Callable(u64),
}

/// The models of a list of items.
pub open spec fn items_view(items: Seq<Value>) -> Seq<ValueModel>
    decreases items,
{
    Seq::new(
        items.len(),
        |i: int|
            if 0 <= i < items.len() {
                items[i].view()
            } else {
                ValueModel::Undefined
            },
    )
}

/// The models of a list of object entries.
pub open spec fn entries_view(entries: Seq<(String, Value)>) -> Seq<(Seq<char>, ValueModel)>
    decreases entries,
{
    Seq::new(
        entries.len(),
        |i: int|
            if 0 <= i < entries.len() {
                (entries[i].0@, entries[i].1.view())
            } else {
                (Seq::empty(), ValueModel::Undefined)
            },
    )
}

impl View for Value {
    type V = ValueModel;

    open spec fn view(&self) -> ValueModel
        decreases self,
    {
        match self {
            Value::Null => ValueModel::Null,
            Value::Undefined => ValueModel::Undefined,
            Value::Number(n) => ValueModel::Number(*n as int),
            Value::Str(s) => ValueModel::Str(s@),
            Value::Bool(b) => ValueModel::Bool(*b),
            Value::Array(items) => ValueModel::Array(items_view(items@)),
            Value::Object(entries) => ValueModel::Object(entries_view(entries@)),
            Value::Callable(h) => ValueModel::Callable(*h),
        }
    }
}

/// `k` is the key of the entry at position `i`, and of no earlier entry.
pub open spec fn first_key_at(entries: Seq<(Seq<char>, ValueModel)>, k: Seq<char>, i: int) -> bool {
    &&& 0 <= i < entries.len()
    &&& entries[i].0 == k
    &&& forall|j: int| 0 <= j < i ==> entries[j].0 != k
}

/// Some entry of the object has key `k`.
pub open spec fn has_key(entries: Seq<(Seq<char>, ValueModel)>, k: Seq<char>) -> bool {
    exists|i: int| 0 <= i < entries.len() && entries[i].0 == k
}

/// The value under key `k`: that of the first entry with that key, or
/// `Undefined` when no entry has it.
pub open spec fn lookup(entries: Seq<(Seq<char>, ValueModel)>, k: Seq<char>) -> ValueModel {
    if exists|i: int| first_key_at(entries, k, i) {
        entries[choose|i: int| first_key_at(entries, k, i)].1
    } else {
        ValueModel::Undefined
    }
}

/// Keys are distinct across the entries.
pub open spec fn keys_distinct(entries: Seq<(Seq<char>, ValueModel)>) -> bool {
    forall|i: int, j: int|
        0 <= i < entries.len() && 0 <= j < entries.len() && i != j ==> entries[i].0
            != entries[j].0
}

impl ValueModel {
    /// Every object inside this value, at any depth, holds each key once.
    pub open spec fn wf(self) -> bool
        decreases self,
    {
        match self {
            ValueModel::Array(items) => forall|i: int|
                0 <= i < items.len() ==> (#[trigger] items[i]).wf(),
            ValueModel::Object(entries) => {
                &&& keys_distinct(entries)
                &&& forall|i: int| 0 <= i < entries.len() ==> (#[trigger] entries[i]).1.wf()
            },
            _ => true,
        }
    }

    /// The value holds no callable at any depth.
    pub open spec fn callable_free(self) -> bool
        decreases self,
    {
        match self {
            ValueModel::Callable(_) => false,
            ValueModel::Array(items) => forall|i: int|
                0 <= i < items.len() ==> (#[trigger] items[i]).callable_free(),
            ValueModel::Object(entries) => forall|i: int|
                0 <= i < entries.len() ==> (#[trigger] entries[i]).1.callable_free(),
            _ => true,
        }
    }
}

impl Clone for Value {
    fn clone(&self) -> (r: Value)
        ensures
            r@ == self@,
        decreases self,
    {
        match self {
            Value::Null => Value::Null,
            Value::Undefined => Value::Undefined,
            Value::Number(n) => Value::Number(*n),
            Value::Str(s) => Value::Str(s.clone()),
            Value::Bool(b) => Value::Bool(*b),
            Value::Array(items) => {
                let mut out: Vec<Value> = Vec::new();
                let mut i: usize = 0;
                while i < items.len()
                    invariant
                        *self == Value::Array(*items),
                        0 <= i <= items.len(),
                        out.len() == i,
                        forall|j: int| 0 <= j < i ==> (#[trigger] out@[j])@ == items@[j]@,
                    decreases items.len() - i,
                {
                    proof {
                        assert(decreases_to!(*self => self->Array_0));
                        assert(decreases_to!(*items => items@));
                        assert(decreases_to!(items@ => items@[i as int]));
                    }
                    out.push(items[i].clone());
                    i += 1;
                }
                assert(items_view(out@) =~= items_view(items@));
                Value::Array(out)
            },
            Value::Object(entries) => {
                let mut out: Vec<(String, Value)> = Vec::new();
                let mut i: usize = 0;
                while i < entries.len()
                    invariant
                        *self == Value::Object(*entries),
                        0 <= i <= entries.len(),
                        out.len() == i,
                        forall|j: int|
                            0 <= j < i ==> (#[trigger] out@[j]).0@ == entries@[j].0@ && out@[j].1@
                                == entries@[j].1@,
                    decreases entries.len() - i,
                {
                    proof {
                        assert(decreases_to!(*self => self->Object_0));
                        assert(decreases_to!(*entries => entries@));
                        assert(decreases_to!(entries@ => entries@[i as int]));
                        assert(decreases_to!(entries@[i as int] => entries@[i as int].1));
                    }
                    let key = entries[i].0.clone();
                    let val = entries[i].1.clone();
                    out.push((key, val));
                    i += 1;
                }
                assert(entries_view(out@) =~= entries_view(entries@));
                Value::Object(out)
            },
            Value::Callable(h) => Value::Callable(*h),
        }
    }
}

/// Position of the first entry whose key is `key`.
pub fn find_key(entries: &Vec<(String, Value)>, key: &String) -> (r: Option<usize>)
    ensures
        match r {
            Some(i) => first_key_at(entries_view(entries@), key@, i as int),
            None => !has_key(entries_view(entries@), key@),
        },
{
    let ghost es = entries_view(entries@);
    let mut i: usize = 0;
    while i < entries.len()
        invariant
            es == entries_view(entries@),
            0 <= i <= entries.len(),
            forall|j: int| 0 <= j < i ==> es[j].0 != key@,
        decreases entries.len() - i,
    {
        if entries[i].0 == *key {
            return Some(i);
        }
        i += 1;
    }
    None
}

/// The value of property `key`, or `Undefined` where the object has no
/// such key.
pub fn get_property(entries: &Vec<(String, Value)>, key: &String) -> (r: Value)
    ensures
        r@ == lookup(entries_view(entries@), key@),
{
    match find_key(entries, key) {
        Some(i) => {
            proof {
                lemma_lookup_at(entries_view(entries@), key@, i as int);
            }
            entries[i].1.clone()
        },
        None => Value::Undefined,
    }
}

/// Reading a property by the position `find_key` gave gives `lookup`.
pub proof fn lemma_lookup_at(entries: Seq<(Seq<char>, ValueModel)>, k: Seq<char>, i: int)
    requires
        first_key_at(entries, k, i),
    ensures
        lookup(entries, k) == entries[i].1,
        has_key(entries, k),
{
    let j = choose|j: int| first_key_at(entries, k, j);
    assert(first_key_at(entries, k, j));
    assert(i == j);
}

} // verus!
