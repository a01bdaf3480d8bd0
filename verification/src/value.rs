use vstd::prelude::*;

verus! {

/// A JSON-shaped value: a tagged tree whose leaves are null, booleans,
/// numbers and text, and whose inner nodes are ordered arrays and ordered
/// objects (sequences of key/value entries, in insertion order).
#[derive(Debug, PartialEq)]
pub enum Value {
    Null,
    Bool(bool),
    Number(i64),
    Text(String),
    Array(Vec<Value>),
    Object(Vec<(String, Value)>),
}

/// The mathematical model of a `Value`: the same tree over `Seq` and
/// mathematical integers, which the contracts speak of.
#[verifier::ext_equal]
pub enum ValueModel {
    Null,
    Bool(bool),
    Number(int),
    Text(Seq<char>),
    Array(Seq<ValueModel>),
    Object(Seq<(Seq<char>, ValueModel)>),
}

/// The model of a concrete `Value` tree.
pub open spec fn model_of(v: Value) -> ValueModel
    decreases v,
{
    match v {
        Value::Null => ValueModel::Null,
        Value::Bool(b) => ValueModel::Bool(b),
        Value::Number(n) => ValueModel::Number(n as int),
        Value::Text(s) => ValueModel::Text(s@),
        Value::Array(items) => ValueModel::Array(models_of(items@)),
        Value::Object(entries) => ValueModel::Object(entry_models_of(entries@)),
    }
}

/// The models of a sequence of values, in order.
pub open spec fn models_of(items: Seq<Value>) -> Seq<ValueModel>
    decreases items,
{
    if items.len() == 0 {
        Seq::empty()
    } else {
        seq![model_of(items[0])] + models_of(items.subrange(1, items.len() as int))
    }
}

/// The models of a sequence of key/value entries, in order.
pub open spec fn entry_models_of(entries: Seq<(String, Value)>) -> Seq<(Seq<char>, ValueModel)>
    decreases entries,
{
    if entries.len() == 0 {
        Seq::empty()
    } else {
        seq![(entries[0].0@, model_of(entries[0].1))]
            + entry_models_of(entries.subrange(1, entries.len() as int))
    }
}

impl View for Value {
    type V = ValueModel;

    open spec fn view(&self) -> ValueModel {
        model_of(*self)
    }
}

/// Whether two model trees have the same shape: the same node kinds, the
/// same array lengths and object sizes, and equal leaf values; object keys
/// are left out of the comparison.
pub open spec fn isomorphic(a: ValueModel, b: ValueModel) -> bool
    decreases a,
{
    match (a, b) {
        (ValueModel::Null, ValueModel::Null) => true,
        (ValueModel::Bool(x), ValueModel::Bool(y)) => x == y,
        (ValueModel::Number(x), ValueModel::Number(y)) => x == y,
        (ValueModel::Text(x), ValueModel::Text(y)) => x == y,
        (ValueModel::Array(x), ValueModel::Array(y)) => isomorphic_items(x, y),
        (ValueModel::Object(x), ValueModel::Object(y)) => isomorphic_entries(x, y),
        _ => false,
    }
}

/// Whether two arrays have the same length and pairwise isomorphic elements.
pub open spec fn isomorphic_items(x: Seq<ValueModel>, y: Seq<ValueModel>) -> bool
    decreases x,
{
    &&& x.len() == y.len()
    &&& (x.len() == 0 || (isomorphic(x[0], y[0]) && isomorphic_items(
        x.subrange(1, x.len() as int),
        y.subrange(1, y.len() as int),
    )))
}

/// Whether two objects have the same size and pairwise isomorphic entry
/// values; the keys may differ.
pub open spec fn isomorphic_entries(
    x: Seq<(Seq<char>, ValueModel)>,
    y: Seq<(Seq<char>, ValueModel)>,
) -> bool
    decreases x,
{
    &&& x.len() == y.len()
    &&& (x.len() == 0 || (isomorphic(x[0].1, y[0].1) && isomorphic_entries(
        x.subrange(1, x.len() as int),
        y.subrange(1, y.len() as int),
    )))
}

/// `models_of` maps the sequence pointwise: same length, nth model from the
/// nth value.
pub proof fn lemma_models_of(items: Seq<Value>)
    ensures
        models_of(items).len() == items.len(),
        forall|i: int| 0 <= i < items.len() ==> models_of(items)[i] == model_of(items[i]),
    decreases items,
{
    if items.len() > 0 {
        lemma_models_of(items.subrange(1, items.len() as int));
    }
}

/// `entry_models_of` maps the sequence pointwise: same length, nth key view
/// and nth value model from the nth entry.
pub proof fn lemma_entry_models_of(entries: Seq<(String, Value)>)
    ensures
        entry_models_of(entries).len() == entries.len(),
        forall|i: int|
            0 <= i < entries.len() ==> entry_models_of(entries)[i] == (
            entries[i].0@,
            model_of(entries[i].1),
            ),
    decreases entries,
{
    if entries.len() > 0 {
        lemma_entry_models_of(entries.subrange(1, entries.len() as int));
    }
}

} // verus!
