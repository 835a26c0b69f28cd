//! The JSON-like values that the assessment and the policy exchange.
//!
//! A number is held as the bit pattern of its IEEE-754 double
//! (`f64::to_bits`): the library moves numbers from one value to another and
//! never computes with them.  An object holds its entries in strictly
//! increasing key order, as the map it stands for yields them.
use vstd::prelude::*;
use crate::sorted::{collect, collect_entries, keyed, last_value, lemma_collect_last_wins, lookup, map_vals, sorted_keys, lemma_collect_map};

verus! {

broadcast use vstd::std_specs::vec::group_vec_axioms;

/// The mathematical form of a [`Value`]: texts as character sequences and an
/// object as the sequence of its entries.
pub enum SpecValue {
    Null,
    Text(Seq<char>),
    Number(u64),
    Bool(bool),
    Object(Seq<(Seq<char>, SpecValue)>),
    Array(Seq<SpecValue>),
}

/// A value of the policy's data model.
#[derive(Debug, PartialEq)]
pub enum Value {
    Null,
    Text(String),
    /// The bit pattern of a double (`f64::to_bits`).
    Number(u64),
    Bool(bool),
    /// Entries in strictly increasing key order.
    Object(Vec<(String, Value)>),
    Array(Vec<Value>),
}

impl Value {
    /// The mathematical form of this value.
    pub open spec fn model(self) -> SpecValue
        decreases self,
    {
        match self {
            Value::Null => SpecValue::Null,
            Value::Text(s) => SpecValue::Text(s@),
            Value::Number(n) => SpecValue::Number(n),
            Value::Bool(b) => SpecValue::Bool(b),
            Value::Object(entries) => SpecValue::Object(
                Seq::new(
                    entries.len() as nat,
                    |i: int|
                        if 0 <= i < entries.len() {
                            proof {
                                assert(decreases_to!(entries => entries[i]));
                            }
                            (entries[i].0@, entries[i].1.model())
                        } else {
                            (Seq::empty(), SpecValue::Null)
                        },
                ),
            ),
            Value::Array(items) => SpecValue::Array(
                Seq::new(
                    items.len() as nat,
                    |i: int|
                        if 0 <= i < items.len() {
                            proof {
                                assert(decreases_to!(items => items[i]));
                            }
                            items[i].model()
                        } else {
                            SpecValue::Null
                        },
                ),
            ),
        }
    }
}

/// The model of each value of a list.
pub open spec fn models(items: Seq<Value>) -> Seq<SpecValue> {
    items.map_values(|v: Value| v.model())
}

/// A list of `(key, value)` pairs in mathematical form.
pub open spec fn pair_models(pairs: Seq<(String, Value)>) -> Seq<(Seq<char>, SpecValue)> {
    map_vals(keyed(pairs), |v: Value| v.model())
}

/// The object that collecting `pairs` into a map gives.
pub open spec fn object_of(pairs: Seq<(Seq<char>, SpecValue)>) -> SpecValue {
    SpecValue::Object(collect(pairs))
}

pub proof fn lemma_object_model(entries: Vec<(String, Value)>)
    ensures
        Value::Object(entries).model() == SpecValue::Object(pair_models(entries@)),
{
    assert(Value::Object(entries).model()->Object_0 =~= pair_models(entries@));
}

pub proof fn lemma_array_model(items: Vec<Value>)
    ensures
        Value::Array(items).model() == SpecValue::Array(models(items@)),
{
    assert(Value::Array(items).model()->Array_0 =~= models(items@));
}

impl Value {
    /// A text value.
    pub fn text(s: &str) -> (res: Value)
        ensures
            res.model() == SpecValue::Text(s@),
    {
        Value::Text(String::from_str(s))
    }

    /// The object that `pairs` collect into, as
    /// `Value::Object(BTreeMap::from_iter(pairs))` builds it: entries in
    /// increasing key order, each key with the value of its last occurrence.
    pub fn object(pairs: Vec<(String, Value)>) -> (res: Value)
        ensures
            res.model() == object_of(pair_models(pairs@)),
            res matches Value::Object(entries) && sorted_keys(keyed(entries@)),
    {
        let ghost given = pairs@;
        let entries = collect_entries(pairs);
        proof {
            lemma_object_model(entries);
            lemma_collect_map(keyed(given), |v: Value| v.model());
        }
        Value::Object(entries)
    }

    /// An array of text values.
    pub fn text_array(items: &[&str]) -> (res: Value)
        ensures
            res.model() == SpecValue::Array(items@.map_values(|s: &str| SpecValue::Text(s@))),
    {
        let mut out: Vec<Value> = Vec::new();
        let mut i: usize = 0;
        while i < items.len()
            invariant
                0 <= i <= items@.len(),
                models(out@) =~= items@.take(i as int).map_values(|s: &str| SpecValue::Text(s@)),
            decreases items@.len() - i,
        {
            let ghost before = out@;
            let item = Value::text(items[i]);
            out.push(item);
            assert(items@.take(i + 1) =~= items@.take(i as int).push(items@[i as int]));
            assert(out@ =~= before.push(item));
            assert(models(out@) =~= models(before).push(item.model()));
            i = i + 1;
        }
        assert(items@.take(items@.len() as int) =~= items@);
        proof {
            lemma_array_model(out);
        }
        Value::Array(out)
    }
}

/// Building an object keeps, for each key, the value of its last occurrence
/// among the pairs, and holds no key that none of them has.
pub proof fn law_object_last_value_wins(pairs: Seq<(Seq<char>, SpecValue)>, k: Seq<char>)
    ensures
        object_of(pairs) matches SpecValue::Object(entries) && lookup(entries, k) == last_value(
            pairs,
            k,
        ),
{
    lemma_collect_last_wins(pairs, k);
}

/// The member `k` of an object value; nothing for any other value.
pub open spec fn member(v: SpecValue, k: Seq<char>) -> Option<SpecValue> {
    match v {
        SpecValue::Object(entries) => lookup(entries, k),
        _ => None,
    }
}

} // verus!
