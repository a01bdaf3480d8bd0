use vstd::prelude::*;

use crate::cache::ConversionCache;
use crate::convert::case_kind_of;
use crate::convert::convert_key;
use crate::convert::spec_case_of;
use crate::convert::spec_convert_key;
use crate::convert::CaseKind;
use crate::value::entry_models_of;
use crate::value::isomorphic;
use crate::value::isomorphic_entries;
use crate::value::isomorphic_items;
use crate::value::lemma_entry_models_of;
use crate::value::lemma_models_of;
use crate::value::models_of;
use crate::value::Value;
use crate::value::ValueModel;
use rayon::prelude::IntoParallelRefIterator;
use rayon::prelude::ParallelIterator;

verus! {

/// An object with more entries than this is fanned out over the thread pool.
pub const OBJ_PAR_THRESHOLD: usize = 500;

/// An array with more elements than this is fanned out over the thread pool.
pub const ARR_PAR_THRESHOLD: usize = 100;

/// What the transform returns: the same tree with every object key run
/// through the key converter and every value transformed in place; leaves
/// are kept as they are.
pub open spec fn spec_transform(v: ValueModel, case: CaseKind) -> ValueModel
    decreases v,
{
    match v {
        ValueModel::Array(items) => ValueModel::Array(spec_transform_items(items, case)),
        ValueModel::Object(entries) => ValueModel::Object(
            spec_transform_entries(entries, case),
        ),
        _ => v,
    }
}

/// The transform of each element of an array, in order.
pub open spec fn spec_transform_items(items: Seq<ValueModel>, case: CaseKind) -> Seq<ValueModel>
    decreases items,
{
    if items.len() == 0 {
        Seq::empty()
    } else {
        seq![spec_transform(items[0], case)] + spec_transform_items(
            items.subrange(1, items.len() as int),
            case,
        )
    }
}

/// The transform of each entry of an object, in order: the key converted,
/// the value transformed.
pub open spec fn spec_transform_entries(
    entries: Seq<(Seq<char>, ValueModel)>,
    case: CaseKind,
) -> Seq<(Seq<char>, ValueModel)>
    decreases entries,
{
    if entries.len() == 0 {
        Seq::empty()
    } else {
        seq![(spec_convert_key(entries[0].0, case), spec_transform(entries[0].1, case))]
            + spec_transform_entries(entries.subrange(1, entries.len() as int), case)
    }
}

/// `spec_transform_items` maps the sequence pointwise: same length, nth
/// output from the nth input.
pub proof fn lemma_spec_transform_items(items: Seq<ValueModel>, case: CaseKind)
    ensures
        spec_transform_items(items, case).len() == items.len(),
        forall|i: int|
            0 <= i < items.len() ==> spec_transform_items(items, case)[i] == spec_transform(
                items[i],
                case,
            ),
    decreases items,
{
    if items.len() > 0 {
        lemma_spec_transform_items(items.subrange(1, items.len() as int), case);
    }
}

/// `spec_transform_entries` maps the sequence pointwise: same length, nth
/// output entry from the nth input entry.
pub proof fn lemma_spec_transform_entries(entries: Seq<(Seq<char>, ValueModel)>, case: CaseKind)
    ensures
        spec_transform_entries(entries, case).len() == entries.len(),
        forall|i: int|
            0 <= i < entries.len() ==> spec_transform_entries(entries, case)[i] == (
            spec_convert_key(entries[i].0, case),
            spec_transform(entries[i].1, case),
            ),
    decreases entries,
{
    if entries.len() > 0 {
        lemma_spec_transform_entries(entries.subrange(1, entries.len() as int), case);
    }
}

/// Relies on num_cpus::get: reports the machine's available logical CPUs,
/// always at least one.
#[verifier::external_body]
fn available_workers() -> (r: usize)
    ensures
        r >= 1,
{
    num_cpus::get()
}

/// Relies on rayon's par_iter().map().collect() for Vec: an indexed parallel
/// map collects its results in input order, whatever order the work ran in.
/// The closure only calls `transform_keys`, whose contract gives each
/// element's model.
#[verifier::external_body]
fn par_transform_items(items: &Vec<Value>, case: CaseKind, cache: &ConversionCache) -> (r: Vec<
    Value,
>)
    ensures
        r@.len() == items@.len(),
        forall|i: int|
            0 <= i < items@.len() ==> #[trigger] r@[i]@ == spec_transform(items@[i]@, case),
{
    items.par_iter().map(|child| transform_keys(child, case, cache)).collect()
}

/// Relies on rayon's par_iter().map().collect() for Vec: an indexed parallel
/// map collects its results in input order, whatever order the work ran in.
/// The closure only calls `convert_key` and `transform_keys`, whose
/// contracts give each entry's key and value.
#[verifier::external_body]
fn par_transform_entries(
    entries: &Vec<(String, Value)>,
    case: CaseKind,
    cache: &ConversionCache,
) -> (r: Vec<(String, Value)>)
    ensures
        r@.len() == entries@.len(),
        forall|i: int|
            0 <= i < entries@.len() ==> #[trigger] r@[i].0@ == spec_convert_key(
                entries@[i].0@,
                case,
            ) && r@[i].1@ == spec_transform(entries@[i].1@, case),
{
    entries.par_iter().map(
        |entry: &(String, Value)|
            (convert_key(entry.0.as_str(), case, cache), transform_keys(&entry.1, case, cache)),
    ).collect()
}

/// Recursively rewrites every object key of the tree into the target case,
/// returning a new tree; values and ordering are untouched. Large objects
/// and arrays are fanned out over the thread pool when more than one worker
/// is available; either path returns the same tree.
pub fn transform_keys(v: &Value, case: CaseKind, cache: &ConversionCache) -> (r: Value)
    ensures
        r@ == spec_transform(v@, case),
    decreases *v,
{
    match v {
        Value::Null => Value::Null,
        Value::Bool(b) => Value::Bool(*b),
        Value::Number(n) => Value::Number(*n),
        Value::Text(s) => Value::Text(s.clone()),
        Value::Array(items) => {
            let n = items.len();
            let out: Vec<Value>;
            if n > ARR_PAR_THRESHOLD && available_workers() > 1 {
                out = par_transform_items(items, case, cache);
            } else {
                let mut acc: Vec<Value> = Vec::new();
                let mut i: usize = 0;
                while i < n
                    invariant
                        *v == Value::Array(*items),
                        i <= n,
                        n == items@.len(),
                        acc@.len() == i,
                        forall|k: int|
                            0 <= k < i ==> #[trigger] acc@[k]@ == spec_transform(
                                items@[k]@,
                                case,
                            ),
                    decreases n - i,
                {
                    proof {
                        assert(*items == (*v)->Array_0);
                        assert(decreases_to!(*v => (*v)->Array_0));
                        assert(decreases_to!(*items => items@));
                        assert(decreases_to!(items@ => items@[i as int]));
                    }
                    let t = transform_keys(&items[i], case, cache);
                    acc.push(t);
                    i += 1;
                }
                out = acc;
            }
            let r = Value::Array(out);
            proof {
                lemma_models_of(out@);
                lemma_models_of(items@);
                lemma_spec_transform_items(models_of(items@), case);
                assert forall|k: int|
                    0 <= k < out@.len() implies models_of(out@)[k] == spec_transform_items(
                    models_of(items@),
                    case,
                )[k] by {
                    assert(out@[k]@ == spec_transform(items@[k]@, case));
                }
                assert(models_of(out@) =~= spec_transform_items(models_of(items@), case));
            }
            r
        },
        Value::Object(entries) => {
            let n = entries.len();
            let out: Vec<(String, Value)>;
            if n > OBJ_PAR_THRESHOLD && available_workers() > 1 {
                out = par_transform_entries(entries, case, cache);
            } else {
                let mut acc: Vec<(String, Value)> = Vec::new();
                let mut i: usize = 0;
                while i < n
                    invariant
                        *v == Value::Object(*entries),
                        i <= n,
                        n == entries@.len(),
                        acc@.len() == i,
                        forall|k: int|
                            0 <= k < i ==> #[trigger] acc@[k].0@ == spec_convert_key(
                                entries@[k].0@,
                                case,
                            ) && acc@[k].1@ == spec_transform(entries@[k].1@, case),
                    decreases n - i,
                {
                    let entry = &entries[i];
                    let ck = convert_key(entry.0.as_str(), case, cache);
                    proof {
                        assert(*entries == (*v)->Object_0);
                        assert(decreases_to!(*v => (*v)->Object_0));
                        assert(decreases_to!(*entries => entries@));
                        assert(decreases_to!(entries@ => entries@[i as int]));
                        assert(decreases_to!(entries@[i as int] => entries@[i as int].1));
                    }
                    let cv = transform_keys(&entry.1, case, cache);
                    acc.push((ck, cv));
                    i += 1;
                }
                out = acc;
            }
            let r = Value::Object(out);
            proof {
                lemma_entry_models_of(out@);
                lemma_entry_models_of(entries@);
                lemma_spec_transform_entries(entry_models_of(entries@), case);
                assert forall|k: int|
                    0 <= k < out@.len() implies entry_models_of(out@)[k] == spec_transform_entries(
                    entry_models_of(entries@),
                    case,
                )[k] by {
                    assert(out@[k].0@ == spec_convert_key(entries@[k].0@, case));
                    assert(out@[k].1@ == spec_transform(entries@[k].1@, case));
                }
                assert(entry_models_of(out@) =~= spec_transform_entries(
                    entry_models_of(entries@),
                    case,
                ));
            }
            r
        },
    }
}

/// Rewrites every object key of the tree into the case the selector string
/// names; an unrecognized selector means camel case.
pub fn transform(value: &Value, casing: &str, cache: &ConversionCache) -> (r: Value)
    ensures
        r@ == spec_transform(value@, spec_case_of(casing@)),
{
    let case = case_kind_of(casing);
    transform_keys(value, case, cache)
}

/// Structural isomorphism: the transform of any tree has the same shape as
/// the tree — the same node kinds, array lengths, object sizes and leaf
/// values; only object keys change.
pub proof fn lemma_transform_isomorphic(v: ValueModel, case: CaseKind)
    ensures
        isomorphic(v, spec_transform(v, case)),
    decreases v,
{
    match v {
        ValueModel::Array(items) => {
            lemma_transform_items_isomorphic(items, case);
        },
        ValueModel::Object(entries) => {
            lemma_transform_entries_isomorphic(entries, case);
        },
        _ => {},
    }
}

proof fn lemma_transform_items_isomorphic(items: Seq<ValueModel>, case: CaseKind)
    ensures
        isomorphic_items(items, spec_transform_items(items, case)),
    decreases items,
{
    lemma_spec_transform_items(items, case);
    if items.len() > 0 {
        let tail = items.subrange(1, items.len() as int);
        lemma_transform_isomorphic(items[0], case);
        lemma_transform_items_isomorphic(tail, case);
        assert(spec_transform_items(items, case).subrange(
            1,
            items.len() as int,
        ) =~= spec_transform_items(tail, case));
    }
}

proof fn lemma_transform_entries_isomorphic(entries: Seq<(Seq<char>, ValueModel)>, case: CaseKind)
    ensures
        isomorphic_entries(entries, spec_transform_entries(entries, case)),
    decreases entries,
{
    lemma_spec_transform_entries(entries, case);
    if entries.len() > 0 {
        let tail = entries.subrange(1, entries.len() as int);
        lemma_transform_isomorphic(entries[0].1, case);
        lemma_transform_entries_isomorphic(tail, case);
        assert(spec_transform_entries(entries, case).subrange(
            1,
            entries.len() as int,
        ) =~= spec_transform_entries(tail, case));
    }
}

/// Order preservation for arrays: the transform of an array is an array of
/// the same length whose nth element is the transform of the nth input
/// element — and `transform_keys` returns this tree whichever regime, serial
/// or fanned-out, ran the work.
pub proof fn lemma_array_order_preserved(items: Seq<ValueModel>, case: CaseKind)
    ensures
        spec_transform(ValueModel::Array(items), case) == ValueModel::Array(
            spec_transform_items(items, case),
        ),
        spec_transform_items(items, case).len() == items.len(),
        forall|i: int|
            0 <= i < items.len() ==> spec_transform_items(items, case)[i] == spec_transform(
                items[i],
                case,
            ),
{
    lemma_spec_transform_items(items, case);
}

/// Order preservation for objects: the transform of an object is an object
/// of the same size whose nth entry corresponds to the nth input entry — its
/// key converted, its value transformed — and `transform_keys` returns this
/// tree whichever regime, serial or fanned-out, ran the work.
pub proof fn lemma_object_order_preserved(entries: Seq<(Seq<char>, ValueModel)>, case: CaseKind)
    ensures
        spec_transform(ValueModel::Object(entries), case) == ValueModel::Object(
            spec_transform_entries(entries, case),
        ),
        spec_transform_entries(entries, case).len() == entries.len(),
        forall|i: int|
            0 <= i < entries.len() ==> spec_transform_entries(entries, case)[i] == (
            spec_convert_key(entries[i].0, case),
            spec_transform(entries[i].1, case),
            ),
{
    lemma_spec_transform_entries(entries, case);
}

/// Default-case fallback: any selector outside "snake", "pascal" and "kebab"
/// — recognized or not — transforms exactly as the selector "camel" does.
pub proof fn lemma_default_case_fallback(v: ValueModel, selector: Seq<char>)
    requires
        selector != "snake"@,
        selector != "pascal"@,
        selector != "kebab"@,
    ensures
        spec_transform(v, spec_case_of(selector)) == spec_transform(v, spec_case_of("camel"@)),
{
    reveal_strlit("camel");
    reveal_strlit("snake");
    reveal_strlit("pascal");
    reveal_strlit("kebab");
    assert("camel"@ != "snake"@) by {
        assert("camel"@[0] == 'c' && "snake"@[0] == 's');
    }
    assert("camel"@ != "pascal"@) by {
        assert("camel"@.len() == 5 && "pascal"@.len() == 6);
    }
    assert("camel"@ != "kebab"@) by {
        assert("camel"@[0] == 'c' && "kebab"@[0] == 'k');
    }
    assert(spec_case_of(selector) == CaseKind::Camel);
    assert(spec_case_of("camel"@) == CaseKind::Camel);
}

/// A transform scheduled to run off the caller's thread: the input tree and
/// the target case, carried to a worker.
pub struct TransformTask {
    pub input: Value,
    pub case: CaseKind,
}

impl TransformTask {
    /// Packs a tree and a target case into a task.
    pub fn new(input: Value, case: CaseKind) -> (r: TransformTask)
        ensures
            r.input == input,
            r.case == case,
    {
        TransformTask { input, case }
    }

    /// The deferred computation itself: the same transform the synchronous
    /// entry point runs, executed wherever the task was scheduled.
    pub fn compute(&self, cache: &ConversionCache) -> (r: Value)
        ensures
            r@ == spec_transform(self.input@, self.case),
    {
        transform_keys(&self.input, self.case, cache)
    }
}

} // verus!
