//! Named thresholds that the policy compares assessment scores against.
//!
//! A threshold's value is a double held by its bit pattern
//! (`f64::to_bits`); reading the value from text is left to the caller.
use vstd::prelude::*;
use crate::sorted::{
    collect, collect_entries, ins, keyed, last_value, lemma_collect_last_wins, lemma_collect_map,
    lemma_collect_push, lemma_collect_sorted_is_identity, lookup, map_vals, sorted_keys,
};
use crate::text::{key_lt, split_spec, split_text, texts};
use crate::value::{lemma_object_model, object_of, pair_models, SpecValue, Value};

verus! {

/// The bits of the double `0.7`.
pub const BITS_0_70: u64 = 0x3FE6_6666_6666_6666;

/// The bits of the double `0.75`.
pub const BITS_0_75: u64 = 0x3FE8_0000_0000_0000;

/// The bits of the double `2.0`.
pub const BITS_2_00: u64 = 0x4000_0000_0000_0000;

/// One threshold given as `name=value`.
pub struct Threshold {
    /// The name of the threshold to evaluate.
    pub name: String,
    /// The bits of the threshold's value.
    pub value: u64,
}

/// Thresholds by name, in increasing name order with no name twice.
pub struct Thresholds {
    thresholds: Vec<(String, u64)>,
}

/// The number value of each pair.
pub open spec fn number_pairs(s: Seq<(Seq<char>, u64)>) -> Seq<(Seq<char>, SpecValue)> {
    map_vals(s, |n: u64| SpecValue::Number(n))
}

/// What splitting `text` at `=` gives, as `Threshold::from_str` does before
/// it reads the value: the name and the value's text when there are exactly
/// two parts, else the error message.
pub open spec fn split_threshold_spec(text: Seq<char>) -> Result<(Seq<char>, Seq<char>), Seq<char>> {
    let parts = split_spec(text, seq!['=']);
    if parts.len() == 2 {
        Ok((parts[0], parts[1]))
    } else {
        Err("Invalid threshold format: "@ + text)
    }
}

/// Splits `name=value` into the name and the value's text.
pub fn split_threshold(text: &str) -> (res: Result<(String, String), String>)
    ensures
        match (res, split_threshold_spec(text@)) {
            (Ok((name, value)), Ok((n, v))) => name@ == n && value@ == v,
            (Err(msg), Err(m)) => msg@ == m,
            _ => false,
        },
{
    let seps = ['='];
    let mut parts = split_text(text, &seps);
    assert(seps@ =~= seq!['=']);
    if parts.len() != 2 {
        let msg = String::from_str("Invalid threshold format: ").concat(text);
        return Err(msg);
    }
    let value = parts.pop().unwrap();
    let name = parts.pop().unwrap();
    Ok((name, value))
}

impl Thresholds {
    #[verifier::type_invariant]
    spec fn inv(self) -> bool {
        sorted_keys(keyed(self.thresholds@))
    }

    /// The thresholds as `(name, bits)` pairs.
    pub closed spec fn model(self) -> Seq<(Seq<char>, u64)> {
        keyed(self.thresholds@)
    }

    /// The thresholds as `(name, bits)` pairs, in increasing name order.
    pub fn thresholds(&self) -> (res: &Vec<(String, u64)>)
        ensures
            keyed(res@) == self.model(),
            sorted_keys(self.model()),
    {
        proof {
            use_type_invariant(self);
        }
        &self.thresholds
    }

    /// Collects `(name, bits)` pairs; a name given twice keeps its last value.
    pub fn from_pairs(pairs: &[(&str, u64)]) -> (res: Thresholds)
        ensures
            res.model() == collect(pairs@.map_values(|p: (&str, u64)| (p.0@, p.1))),
            sorted_keys(res.model()),
    {
        let mut owned: Vec<(String, u64)> = Vec::new();
        let mut i: usize = 0;
        while i < pairs.len()
            invariant
                0 <= i <= pairs@.len(),
                keyed(owned@) =~= pairs@.take(i as int).map_values(|p: (&str, u64)| (p.0@, p.1)),
            decreases pairs@.len() - i,
        {
            let (name, value) = pairs[i];
            let ghost before = owned@;
            let owned_name = String::from_str(name);
            owned.push((owned_name, value));
            assert(pairs@.take(i + 1) =~= pairs@.take(i as int).push(pairs@[i as int]));
            assert(keyed(owned@) =~= keyed(before).push((name@, value)));
            i = i + 1;
        }
        assert(pairs@.take(pairs@.len() as int) =~= pairs@);
        Thresholds { thresholds: collect_entries(owned) }
    }

    /// Collects thresholds by name; a name given twice keeps its last value.
    pub fn from_thresholds(list: Vec<Threshold>) -> (res: Thresholds)
        ensures
            res.model() == collect(list@.map_values(|t: Threshold| (t.name@, t.value))),
            sorted_keys(res.model()),
    {
        let ghost all = list@;
        let mut rest = list;
        let mut owned: Vec<(String, u64)> = Vec::new();
        let mut i: usize = 0;
        let total = rest.len();
        assert(all.skip(0) =~= all);
        while rest.len() > 0
            invariant
                i + rest@.len() == all.len(),
                all.len() == total,
                rest@ == all.skip(i as int),
                keyed(owned@) =~= all.take(i as int).map_values(|t: Threshold| (t.name@, t.value)),
            decreases rest@.len(),
        {
            let ghost before = rest@;
            let t = rest.remove(0);
            assert(rest@ =~= all.skip(i + 1));
            assert(all.take(i + 1) =~= all.take(i as int).push(t));
            let ghost owned_before = owned@;
            let ghost entry = (t.name@, t.value);
            owned.push((t.name, t.value));
            assert(keyed(owned@) =~= keyed(owned_before).push(entry));
            i = i + 1;
        }
        assert(all.take(i as int) =~= all);
        Thresholds { thresholds: collect_entries(owned) }
    }

    /// The value `{"thresholds": {name: number, ...}}`.
    pub fn to_value(self) -> (res: Value)
        ensures
            res.model() == object_of(seq![("thresholds"@, object_of(number_pairs(self.model())))]),
    {
        let ghost m = self.model();
        let mut inner: Vec<(String, Value)> = Vec::new();
        let mut rest = self.thresholds;
        let mut i: usize = 0;
        let total = rest.len();
        assert(m.skip(0) =~= m);
        while rest.len() > 0
            invariant
                i + rest@.len() == m.len(),
                m.len() == total,
                keyed(rest@) =~= m.skip(i as int),
                pair_models(inner@) =~= number_pairs(m.take(i as int)),
            decreases rest@.len(),
        {
            let ghost before = rest@;
            let (name, bits) = rest.remove(0);
            assert(rest@ =~= before.drop_first());
            assert(keyed(rest@) =~= keyed(before).drop_first());
            assert(m.skip(i as int).drop_first() =~= m.skip(i + 1));
            assert(keyed(before)[0] == (name@, bits));
            assert(m[i as int] == m.skip(i as int)[0]);
            assert(m.take(i + 1) =~= m.take(i as int).push((name@, bits)));
            let ghost inner_before = inner@;
            inner.push((name, Value::Number(bits)));
            assert(pair_models(inner@) =~= pair_models(inner_before).push((name@, SpecValue::Number(bits))));
            i = i + 1;
        }
        assert(m.take(i as int) =~= m);
        let nested = Value::object(inner);
        let pairs = vec![(String::from_str("thresholds"), nested)];
        assert(pair_models(pairs@) =~= seq![("thresholds"@, nested.model())]);
        Value::object(pairs)
    }
}

/// The thresholds the policy sees when none are given.
pub open spec fn default_threshold_pairs() -> Seq<(Seq<char>, u64)> {
    seq![
        ("api-review"@, BITS_0_75),
        ("data-review"@, BITS_0_75),
        ("rollback-plan-required"@, BITS_2_00),
        ("security-review"@, BITS_0_70),
    ]
}

/// The model of [`default_thresholds`].
pub open spec fn default_thresholds_spec() -> SpecValue {
    SpecValue::Object(
        seq![
            ("thresholds"@, SpecValue::Object(
                seq![("thresholds"@, SpecValue::Object(number_pairs(default_threshold_pairs())))],
            )),
        ],
    )
}

/// The default thresholds as the policy data holds them:
/// `{"thresholds": {"thresholds": {"api-review": 0.75, "data-review": 0.75,
/// "rollback-plan-required": 2.0, "security-review": 0.7}}}`.
pub fn default_thresholds() -> (res: Value)
    ensures
        res.model() == default_thresholds_spec(),
{
    let pairs = [
        ("security-review", BITS_0_70),
        ("data-review", BITS_0_75),
        ("api-review", BITS_0_75),
        ("rollback-plan-required", BITS_2_00),
    ];
    let thresholds = Thresholds::from_pairs(&pairs);
    proof {
        reveal_strlit("security-review");
        reveal_strlit("data-review");
        reveal_strlit("api-review");
        reveal_strlit("rollback-plan-required");
        reveal_strlit("thresholds");
        let given = pairs@.map_values(|p: (&str, u64)| (p.0@, p.1));
        assert(given =~= seq![
            ("security-review"@, BITS_0_70),
            ("data-review"@, BITS_0_75),
            ("api-review"@, BITS_0_75),
            ("rollback-plan-required"@, BITS_2_00),
        ]);
        let d = default_threshold_pairs();
        assert(key_lt("api-review"@, "data-review"@));
        assert(key_lt("data-review"@, "rollback-plan-required"@));
        assert(key_lt("rollback-plan-required"@, "security-review"@));
        assert(key_lt("data-review"@, "security-review"@));
        assert(key_lt("api-review"@, "security-review"@));
        assert(key_lt("api-review"@, "rollback-plan-required"@));
        let e = Seq::<(Seq<char>, u64)>::empty();
        assert(given =~= e.push(given[0]).push(given[1]).push(given[2]).push(given[3]));
        lemma_collect_push(e, given[0].0, given[0].1);
        assert(collect(e) =~= e);
        let c1 = collect(e.push(given[0]));
        assert(c1 =~= seq![d[3]]);
        lemma_collect_push(e.push(given[0]), given[1].0, given[1].1);
        assert("security-review"@ != "data-review"@);
        assert(c1.drop_first() =~= e);
        let c2 = collect(e.push(given[0]).push(given[1]));
        assert(c2 =~= seq![d[1], d[3]]);
        lemma_collect_push(e.push(given[0]).push(given[1]), given[2].0, given[2].1);
        assert("data-review"@ != "api-review"@);
        let c3 = collect(e.push(given[0]).push(given[1]).push(given[2]));
        assert(c3 =~= seq![d[0], d[1], d[3]]);
        lemma_collect_push(e.push(given[0]).push(given[1]).push(given[2]), given[3].0, given[3].1);
        assert("api-review"@ != "rollback-plan-required"@);
        assert("data-review"@ != "rollback-plan-required"@);
        assert("security-review"@ != "rollback-plan-required"@);
        assert(!key_lt("rollback-plan-required"@, "api-review"@));
        assert(!key_lt("rollback-plan-required"@, "data-review"@));
        assert(c3.drop_first().drop_first() =~= seq![d[3]]);
        assert(c3.drop_first() =~= seq![d[1], d[3]]);
        let r = "rollback-plan-required"@;
        assert(ins(seq![d[3]], r, BITS_2_00) =~= seq![d[2], d[3]]);
        assert(seq![d[1], d[3]].drop_first() =~= seq![d[3]]);
        assert(ins(seq![d[1], d[3]], r, BITS_2_00) =~= seq![d[1], d[2], d[3]]);
        assert(ins(c3, r, BITS_2_00) =~= d);
        assert(collect(given) =~= d);
        assert(sorted_keys(number_pairs(d)));
        lemma_collect_sorted_is_identity(number_pairs(d));
    }
    let inner = thresholds.to_value();
    let pairs = vec![(String::from_str("thresholds"), inner)];
    assert(pair_models(pairs@) =~= seq![("thresholds"@, inner.model())]);
    proof {
        lemma_collect_sorted_is_identity(seq![("thresholds"@, inner.model())]);
        lemma_collect_sorted_is_identity(seq![("thresholds"@, object_of(number_pairs(default_threshold_pairs())))]);
    }
    Value::object(pairs)
}

/// The thresholds the policy sees: the defaults, each replaced by a given
/// threshold of the same name, and the given ones of other names added.
pub open spec fn effective_thresholds(given: Seq<(Seq<char>, u64)>) -> Seq<(Seq<char>, u64)> {
    collect(default_threshold_pairs() + given)
}

/// The model of [`thresholds_document`].
pub open spec fn thresholds_document_spec(given: Seq<(Seq<char>, u64)>) -> SpecValue {
    SpecValue::Object(
        seq![
            ("thresholds"@, SpecValue::Object(
                seq![("thresholds"@, SpecValue::Object(number_pairs(effective_thresholds(given))))],
            )),
        ],
    )
}

proof fn lemma_default_pairs_sorted()
    ensures
        sorted_keys(default_threshold_pairs()),
        collect(default_threshold_pairs()) == default_threshold_pairs(),
{
    reveal_strlit("security-review");
    reveal_strlit("data-review");
    reveal_strlit("api-review");
    reveal_strlit("rollback-plan-required");
    assert(key_lt("api-review"@, "data-review"@));
    assert(key_lt("data-review"@, "rollback-plan-required"@));
    assert(key_lt("rollback-plan-required"@, "security-review"@));
    assert(key_lt("data-review"@, "security-review"@));
    assert(key_lt("api-review"@, "security-review"@));
    assert(key_lt("api-review"@, "rollback-plan-required"@));
    lemma_collect_sorted_is_identity(default_threshold_pairs());
}

proof fn lemma_number_pairs_sorted(m: Seq<(Seq<char>, u64)>)
    requires
        sorted_keys(m),
    ensures
        sorted_keys(number_pairs(m)),
        collect(number_pairs(m)) == number_pairs(m),
{
    let n = number_pairs(m);
    assert forall|i: int, j: int| 0 <= i < j < n.len() implies key_lt(#[trigger] n[i].0, #[trigger] n[j].0) by {
        assert(n[i].0 == m[i].0);
        assert(n[j].0 == m[j].0);
    }
    lemma_collect_sorted_is_identity(n);
}

proof fn lemma_last_value_concat(a: Seq<(Seq<char>, u64)>, b: Seq<(Seq<char>, u64)>, k: Seq<char>)
    ensures
        last_value(a + b, k) == match last_value(b, k) {
            Some(v) => Some(v),
            None => last_value(a, k),
        },
    decreases b.len(),
{
    if b.len() == 0 {
        assert(a + b =~= a);
    } else {
        assert((a + b).drop_last() =~= a + b.drop_last());
        assert((a + b).last() == b.last());
        lemma_last_value_concat(a, b.drop_last(), k);
    }
}

/// A given threshold replaces the default of its name; a name given twice
/// keeps its last value; a name not given keeps its default, if it has one.
pub proof fn law_given_thresholds_override_defaults(given: Seq<(Seq<char>, u64)>, k: Seq<char>)
    ensures
        lookup(effective_thresholds(given), k) == match last_value(given, k) {
            Some(v) => Some(v),
            None => lookup(default_threshold_pairs(), k),
        },
{
    lemma_collect_last_wins(default_threshold_pairs() + given, k);
    lemma_last_value_concat(default_threshold_pairs(), given, k);
    lemma_default_pairs_sorted();
    lemma_collect_last_wins(default_threshold_pairs(), k);
}

/// With no thresholds given, the policy sees the default thresholds.
pub proof fn law_no_given_thresholds_keeps_defaults()
    ensures
        thresholds_document_spec(Seq::empty()) == default_thresholds_spec(),
{
    lemma_default_pairs_sorted();
    assert(default_threshold_pairs() + Seq::<(Seq<char>, u64)>::empty() =~= default_threshold_pairs());
}

/// The thresholds document that the policy is loaded with:
/// `{"thresholds": {"thresholds": {name: number, ...}}}`, holding the
/// defaults of [`default_thresholds`] with the given thresholds over them.
pub fn thresholds_document(given: &Thresholds) -> (res: Value)
    ensures
        res.model() == thresholds_document_spec(given.model()),
{
    let mut owned: Vec<(String, u64)> = Vec::new();
    owned.push((String::from_str("api-review"), BITS_0_75));
    owned.push((String::from_str("data-review"), BITS_0_75));
    owned.push((String::from_str("rollback-plan-required"), BITS_2_00));
    owned.push((String::from_str("security-review"), BITS_0_70));
    let ghost g = given.model();
    assert(keyed(owned@) =~= default_threshold_pairs());
    let list = given.thresholds();
    let mut i: usize = 0;
    while i < list.len()
        invariant
            0 <= i <= list@.len(),
            keyed(list@) == g,
            keyed(owned@) =~= default_threshold_pairs() + g.take(i as int),
        decreases list@.len() - i,
    {
        let name = list[i].0.clone();
        let bits = list[i].1;
        let ghost before = keyed(owned@);
        owned.push((name, bits));
        assert(g[i as int] == (name@, bits));
        assert(g.take(i + 1) =~= g.take(i as int).push(g[i as int]));
        assert(keyed(owned@) =~= before.push((name@, bits)));
        i = i + 1;
    }
    assert(g.take(i as int) =~= g);
    let merged = Thresholds { thresholds: collect_entries(owned) };
    let ghost m = merged.model();
    assert(m == effective_thresholds(g));
    let inner = merged.to_value();
    proof {
        reveal_strlit("thresholds");
        lemma_number_pairs_sorted(m);
        lemma_collect_sorted_is_identity(seq![("thresholds"@, SpecValue::Object(number_pairs(m)))]);
    }
    let pairs = vec![(String::from_str("thresholds"), inner)];
    assert(pair_models(pairs@) =~= seq![("thresholds"@, inner.model())]);
    proof {
        lemma_collect_sorted_is_identity(seq![("thresholds"@, inner.model())]);
    }
    Value::object(pairs)
}

} // verus!
