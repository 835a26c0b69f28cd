//! Lists of `(key, value)` pairs with text keys, kept in strictly increasing
//! key order: the order in which a `BTreeMap<String, V>` holds and yields its
//! entries.  Collecting pairs into such a list follows `BTreeMap::from_iter`:
//! a key that occurs more than once keeps the value of its last occurrence.
use vstd::prelude::*;
use crate::text::{compare_text, key_lt, lemma_key_lt_asymmetric, lemma_key_lt_irreflexive, lemma_key_lt_total, lemma_key_lt_transitive, KeyOrder};

verus! {

/// A list of pairs with each key taken by its text.
pub open spec fn keyed<V>(e: Seq<(String, V)>) -> Seq<(Seq<char>, V)> {
    e.map_values(|p: (String, V)| (p.0@, p.1))
}

/// Keys strictly increase along the list.
pub open spec fn sorted_keys<A>(s: Seq<(Seq<char>, A)>) -> bool {
    forall|i: int, j: int| 0 <= i < j < s.len() ==> key_lt(#[trigger] s[i].0, #[trigger] s[j].0)
}

/// `s` with the pair `(k, v)` put in: in place of the pair with key `k`, or
/// before the first pair whose key is greater.
pub open spec fn ins<A>(s: Seq<(Seq<char>, A)>, k: Seq<char>, v: A) -> Seq<(Seq<char>, A)>
    decreases s.len(),
{
    if s.len() == 0 {
        seq![(k, v)]
    } else if s[0].0 == k {
        seq![(k, v)] + s.drop_first()
    } else if key_lt(k, s[0].0) {
        seq![(k, v)] + s
    } else {
        seq![s[0]] + ins(s.drop_first(), k, v)
    }
}

/// The pairs put in one after the other, starting from an empty list.
pub open spec fn collect<A>(pairs: Seq<(Seq<char>, A)>) -> Seq<(Seq<char>, A)>
    decreases pairs.len(),
{
    if pairs.len() == 0 {
        Seq::empty()
    } else {
        ins(collect(pairs.drop_last()), pairs.last().0, pairs.last().1)
    }
}

pub proof fn lemma_collect_push<A>(pairs: Seq<(Seq<char>, A)>, k: Seq<char>, v: A)
    ensures
        collect(pairs.push((k, v))) == ins(collect(pairs), k, v),
{
    assert(pairs.push((k, v)).drop_last() =~= pairs);
}

/// The value of the first pair with key `k`, if there is one.
pub open spec fn lookup<A>(s: Seq<(Seq<char>, A)>, k: Seq<char>) -> Option<A>
    decreases s.len(),
{
    if s.len() == 0 {
        None
    } else if s[0].0 == k {
        Some(s[0].1)
    } else {
        lookup(s.drop_first(), k)
    }
}

/// The value of the last pair with key `k`, if there is one.
pub open spec fn last_value<A>(pairs: Seq<(Seq<char>, A)>, k: Seq<char>) -> Option<A>
    decreases pairs.len(),
{
    if pairs.len() == 0 {
        None
    } else if pairs.last().0 == k {
        Some(pairs.last().1)
    } else {
        last_value(pairs.drop_last(), k)
    }
}

/// The values of a list mapped by `f`, keys kept.
pub open spec fn map_vals<A, B>(s: Seq<(Seq<char>, A)>, f: spec_fn(A) -> B) -> Seq<(Seq<char>, B)> {
    s.map_values(|p: (Seq<char>, A)| (p.0, f(p.1)))
}

/// A list whose keys are all less than `k` takes `(k, v)` at its end.
pub proof fn lemma_ins_after_all<A>(s: Seq<(Seq<char>, A)>, k: Seq<char>, v: A)
    requires
        forall|i: int| 0 <= i < s.len() ==> key_lt(#[trigger] s[i].0, k),
    ensures
        ins(s, k, v) == s.push((k, v)),
    decreases s.len(),
{
    if s.len() > 0 {
        lemma_key_lt_irreflexive(k);
        lemma_key_lt_asymmetric(s[0].0, k);
        assert forall|i: int| 0 <= i < s.drop_first().len() implies key_lt(
            #[trigger] s.drop_first()[i].0,
            k,
        ) by {
            assert(s.drop_first()[i] == s[i + 1]);
        }
        lemma_ins_after_all(s.drop_first(), k, v);
        assert(ins(s, k, v) =~= s.push((k, v)));
    }
}

/// Putting a pair in skips a prefix whose keys are all less than its key.
pub proof fn lemma_ins_skip_prefix<A>(s: Seq<(Seq<char>, A)>, k: Seq<char>, v: A, i: int)
    requires
        0 <= i <= s.len(),
        forall|j: int| 0 <= j < i ==> key_lt(#[trigger] s[j].0, k),
    ensures
        ins(s, k, v) == s.take(i) + ins(s.skip(i), k, v),
    decreases i,
{
    if i == 0 {
        assert(s.skip(0) =~= s);
        assert(s.take(0) + ins(s, k, v) =~= ins(s, k, v));
    } else {
        lemma_key_lt_irreflexive(k);
        lemma_key_lt_asymmetric(s[0].0, k);
        let t = s.drop_first();
        assert forall|j: int| 0 <= j < i - 1 implies key_lt(#[trigger] t[j].0, k) by {
            assert(t[j] == s[j + 1]);
        }
        lemma_ins_skip_prefix(t, k, v, i - 1);
        assert(t.skip(i - 1) =~= s.skip(i));
        assert(seq![s[0]] + t.take(i - 1) =~= s.take(i));
        assert(ins(s, k, v) =~= s.take(i) + ins(s.skip(i), k, v));
    }
}

/// Every key of `ins(s, k, v)` is `k` or a key of `s`.
pub proof fn lemma_ins_keys<A>(s: Seq<(Seq<char>, A)>, k: Seq<char>, v: A, x: int)
    requires
        0 <= x < ins(s, k, v).len(),
    ensures
        ins(s, k, v)[x].0 == k || exists|j: int| 0 <= j < s.len() && #[trigger] s[j].0 == ins(s, k, v)[x].0,
    decreases s.len(),
{
    if s.len() > 0 && s[0].0 != k && !key_lt(k, s[0].0) {
        if x > 0 {
            lemma_ins_keys(s.drop_first(), k, v, x - 1);
            if ins(s.drop_first(), k, v)[x - 1].0 != k {
                let j = choose|j: int| 0 <= j < s.drop_first().len() && #[trigger] s.drop_first()[j].0 == ins(s.drop_first(), k, v)[x - 1].0;
                assert(s[j + 1].0 == ins(s, k, v)[x].0);
            }
        } else {
            assert(s[0].0 == ins(s, k, v)[x].0);
        }
    } else if s.len() > 0 && x > 0 {
        if s[0].0 == k {
            assert(s[x].0 == ins(s, k, v)[x].0);
        } else {
            assert(s[x - 1].0 == ins(s, k, v)[x].0);
        }
    }
}

/// Putting a pair into a sorted list keeps it sorted.
pub proof fn lemma_ins_sorted<A>(s: Seq<(Seq<char>, A)>, k: Seq<char>, v: A)
    requires
        sorted_keys(s),
    ensures
        sorted_keys(ins(s, k, v)),
        ins(s, k, v).len() == s.len() || ins(s, k, v).len() == s.len() + 1,
    decreases s.len(),
{
    let r = ins(s, k, v);
    if s.len() == 0 {
    } else if s[0].0 == k {
        assert forall|i: int, j: int| 0 <= i < j < r.len() implies key_lt(#[trigger] r[i].0, #[trigger] r[j].0) by {
            assert(r[j].0 == s[j].0);
            if i > 0 {
                assert(r[i].0 == s[i].0);
            }
        }
    } else if key_lt(k, s[0].0) {
        assert forall|i: int, j: int| 0 <= i < j < r.len() implies key_lt(#[trigger] r[i].0, #[trigger] r[j].0) by {
            assert(r[j].0 == s[j - 1].0);
            if i > 0 {
                assert(r[i].0 == s[i - 1].0);
            } else if j > 1 {
                lemma_key_lt_transitive(k, s[0].0, s[j - 1].0);
            }
        }
    } else {
        let t = s.drop_first();
        assert forall|i: int, j: int| 0 <= i < j < t.len() implies key_lt(#[trigger] t[i].0, #[trigger] t[j].0) by {
            assert(t[i] == s[i + 1]);
            assert(t[j] == s[j + 1]);
        }
        lemma_ins_sorted(t, k, v);
        lemma_key_lt_total(k, s[0].0);
        assert forall|i: int, j: int| 0 <= i < j < r.len() implies key_lt(#[trigger] r[i].0, #[trigger] r[j].0) by {
            if i == 0 {
                assert(r[j] == ins(t, k, v)[j - 1]);
                lemma_ins_keys(t, k, v, j - 1);
                if ins(t, k, v)[j - 1].0 != k {
                    let w = choose|w: int| 0 <= w < t.len() && #[trigger] t[w].0 == ins(t, k, v)[j - 1].0;
                    assert(t[w] == s[w + 1]);
                }
            } else {
                assert(r[i] == ins(t, k, v)[i - 1]);
                assert(r[j] == ins(t, k, v)[j - 1]);
            }
        }
    }
}

pub proof fn lemma_collect_sorted<A>(pairs: Seq<(Seq<char>, A)>)
    ensures
        sorted_keys(collect(pairs)),
        collect(pairs).len() <= pairs.len(),
    decreases pairs.len(),
{
    if pairs.len() > 0 {
        lemma_collect_sorted(pairs.drop_last());
        lemma_ins_sorted(collect(pairs.drop_last()), pairs.last().0, pairs.last().1);
    }
}

/// Pairs that are already in strictly increasing key order collect to
/// themselves.
pub proof fn lemma_collect_sorted_is_identity<A>(pairs: Seq<(Seq<char>, A)>)
    requires
        sorted_keys(pairs),
    ensures
        collect(pairs) == pairs,
    decreases pairs.len(),
{
    if pairs.len() > 0 {
        let init = pairs.drop_last();
        assert forall|i: int, j: int| 0 <= i < j < init.len() implies key_lt(#[trigger] init[i].0, #[trigger] init[j].0) by {
            assert(init[i] == pairs[i]);
            assert(init[j] == pairs[j]);
        }
        lemma_collect_sorted_is_identity(init);
        assert forall|i: int| 0 <= i < init.len() implies key_lt(#[trigger] init[i].0, pairs.last().0) by {
            assert(init[i] == pairs[i]);
        }
        lemma_ins_after_all(init, pairs.last().0, pairs.last().1);
        assert(init.push(pairs.last()) =~= pairs);
    }
}

/// After putting `(k, v)` in, `k` finds `v` and every other key finds what
/// it found before.
pub proof fn lemma_lookup_ins<A>(s: Seq<(Seq<char>, A)>, k: Seq<char>, v: A, x: Seq<char>)
    ensures
        lookup(ins(s, k, v), x) == if x == k {
            Some(v)
        } else {
            lookup(s, x)
        },
    decreases s.len(),
{
    if s.len() == 0 {
        assert(ins(s, k, v).drop_first() =~= s);
    } else {
        if s[0].0 == k {
            assert(ins(s, k, v).drop_first() =~= s.drop_first());
        } else if key_lt(k, s[0].0) {
            assert(ins(s, k, v).drop_first() =~= s);
        } else {
            lemma_lookup_ins(s.drop_first(), k, v, x);
            assert(ins(s, k, v).drop_first() =~= ins(s.drop_first(), k, v));
        }
    }
}

/// Collecting keeps, for each key, the value of its last occurrence.
pub proof fn lemma_collect_last_wins<A>(pairs: Seq<(Seq<char>, A)>, k: Seq<char>)
    ensures
        lookup(collect(pairs), k) == last_value(pairs, k),
    decreases pairs.len(),
{
    if pairs.len() > 0 {
        lemma_collect_last_wins(pairs.drop_last(), k);
        lemma_lookup_ins(collect(pairs.drop_last()), pairs.last().0, pairs.last().1, k);
    }
}

/// A key that no pair has finds nothing.
pub proof fn lemma_lookup_absent<A>(s: Seq<(Seq<char>, A)>, k: Seq<char>)
    requires
        forall|i: int| 0 <= i < s.len() ==> #[trigger] s[i].0 != k,
    ensures
        lookup(s, k) is None,
    decreases s.len(),
{
    if s.len() > 0 {
        assert(s[0].0 != k);
        assert forall|i: int| 0 <= i < s.drop_first().len() implies #[trigger] s.drop_first()[i].0 != k by {
            assert(s.drop_first()[i] == s[i + 1]);
        }
        lemma_lookup_absent(s.drop_first(), k);
    }
}

/// A key that finds a value is the key of some pair.
pub proof fn lemma_lookup_present<A>(s: Seq<(Seq<char>, A)>, k: Seq<char>) -> (i: int)
    requires
        lookup(s, k) is Some,
    ensures
        0 <= i < s.len(),
        s[i].0 == k,
    decreases s.len(),
{
    if s[0].0 == k {
        0
    } else {
        let j = lemma_lookup_present(s.drop_first(), k);
        assert(s.drop_first()[j] == s[j + 1]);
        j + 1
    }
}

/// A sorted list is the only sorted list with its lookups.
pub proof fn lemma_sorted_unique<A>(s1: Seq<(Seq<char>, A)>, s2: Seq<(Seq<char>, A)>)
    requires
        sorted_keys(s1),
        sorted_keys(s2),
        forall|k: Seq<char>| #[trigger] lookup(s1, k) == lookup(s2, k),
    ensures
        s1 == s2,
    decreases s1.len() + s2.len(),
{
    if s1.len() == 0 && s2.len() > 0 {
        assert(lookup(s2, s2[0].0) is Some);
        assert(lookup(s1, s2[0].0) is None);
    } else if s1.len() > 0 && s2.len() == 0 {
        assert(lookup(s1, s1[0].0) is Some);
        assert(lookup(s2, s1[0].0) is None);
    } else if s1.len() > 0 && s2.len() > 0 {
        let k1 = s1[0].0;
        let k2 = s2[0].0;
        assert(lookup(s1, k1) is Some);
        assert(lookup(s2, k2) is Some);
        let i = lemma_lookup_present(s1, k2);
        let j = lemma_lookup_present(s2, k1);
        if k1 != k2 {
            assert(i > 0 && j > 0);
            assert(key_lt(k1, k2));
            assert(key_lt(k2, k1));
            lemma_key_lt_asymmetric(k1, k2);
        }
        let t1 = s1.drop_first();
        let t2 = s2.drop_first();
        assert forall|i: int, j: int| 0 <= i < j < t1.len() implies key_lt(#[trigger] t1[i].0, #[trigger] t1[j].0) by {
            assert(t1[i] == s1[i + 1]);
            assert(t1[j] == s1[j + 1]);
        }
        assert forall|i: int, j: int| 0 <= i < j < t2.len() implies key_lt(#[trigger] t2[i].0, #[trigger] t2[j].0) by {
            assert(t2[i] == s2[i + 1]);
            assert(t2[j] == s2[j + 1]);
        }
        assert forall|k: Seq<char>| #[trigger] lookup(t1, k) == lookup(t2, k) by {
            if k == k1 {
                assert forall|i: int| 0 <= i < t1.len() implies #[trigger] t1[i].0 != k by {
                    assert(t1[i] == s1[i + 1]);
                    assert(key_lt(k1, s1[i + 1].0));
                    lemma_key_lt_irreflexive(k1);
                }
                assert forall|i: int| 0 <= i < t2.len() implies #[trigger] t2[i].0 != k by {
                    assert(t2[i] == s2[i + 1]);
                    assert(key_lt(k2, s2[i + 1].0));
                    lemma_key_lt_irreflexive(k2);
                }
                lemma_lookup_absent(t1, k);
                lemma_lookup_absent(t2, k);
            } else {
                assert(lookup(s1, k) == lookup(t1, k));
                assert(lookup(s2, k) == lookup(t2, k));
            }
        }
        lemma_sorted_unique(t1, t2);
        assert(s1[0] == s2[0]);
        assert(s1 =~= seq![s1[0]] + t1);
        assert(s2 =~= seq![s2[0]] + t2);
    }
}

/// A list whose neighbouring keys increase is sorted.
pub proof fn lemma_sorted_by_neighbours<A>(s: Seq<(Seq<char>, A)>)
    requires
        forall|i: int| 0 <= i < s.len() - 1 ==> key_lt(#[trigger] s[i].0, s[i + 1].0),
    ensures
        sorted_keys(s),
    decreases s.len(),
{
    if s.len() > 0 {
        let init = s.drop_last();
        assert forall|i: int| 0 <= i < init.len() - 1 implies key_lt(#[trigger] init[i].0, init[i + 1].0) by {
            assert(init[i] == s[i]);
            assert(init[i + 1] == s[i + 1]);
            assert(key_lt(s[i].0, s[i + 1].0));
        }
        lemma_sorted_by_neighbours(init);
        assert forall|i: int, j: int| 0 <= i < j < s.len() implies key_lt(#[trigger] s[i].0, #[trigger] s[j].0) by {
            if j < s.len() - 1 {
                assert(init[i] == s[i]);
                assert(init[j] == s[j]);
            } else if i < j - 1 {
                assert(init[i] == s[i]);
                assert(init[j - 1] == s[j - 1]);
                assert(key_lt(s[j - 1].0, s[j].0));
                lemma_key_lt_transitive(s[i].0, s[j - 1].0, s[j].0);
            } else {
                assert(key_lt(s[j - 1].0, s[j].0));
            }
        }
    }
}

/// Collecting pairs gives the sorted list that finds, for each key, the
/// value of its last occurrence.
pub proof fn lemma_collect_equals<A>(pairs: Seq<(Seq<char>, A)>, expected: Seq<(Seq<char>, A)>)
    requires
        sorted_keys(expected),
        forall|k: Seq<char>| #[trigger] lookup(expected, k) == last_value(pairs, k),
    ensures
        collect(pairs) == expected,
{
    lemma_collect_sorted(pairs);
    assert forall|k: Seq<char>| #[trigger] lookup(collect(pairs), k) == lookup(expected, k) by {
        lemma_collect_last_wins(pairs, k);
    }
    lemma_sorted_unique(collect(pairs), expected);
}

/// Putting a pair in commutes with mapping the values.
pub proof fn lemma_ins_map<A, B>(s: Seq<(Seq<char>, A)>, k: Seq<char>, v: A, f: spec_fn(A) -> B)
    ensures
        map_vals(ins(s, k, v), f) == ins(map_vals(s, f), k, f(v)),
    decreases s.len(),
{
    let m = map_vals(s, f);
    if s.len() == 0 {
        assert(map_vals(ins(s, k, v), f) =~= ins(m, k, f(v)));
    } else {
        assert(m[0] == (s[0].0, f(s[0].1)));
        assert(map_vals(s.drop_first(), f) =~= m.drop_first());
        if s[0].0 == k {
            assert(map_vals(ins(s, k, v), f) =~= ins(m, k, f(v)));
        } else if key_lt(k, s[0].0) {
            assert(map_vals(ins(s, k, v), f) =~= ins(m, k, f(v)));
        } else {
            lemma_ins_map(s.drop_first(), k, v, f);
            assert(map_vals(ins(s, k, v), f) =~= ins(m, k, f(v)));
        }
    }
}

/// Collecting commutes with mapping the values.
pub proof fn lemma_collect_map<A, B>(pairs: Seq<(Seq<char>, A)>, f: spec_fn(A) -> B)
    ensures
        map_vals(collect(pairs), f) == collect(map_vals(pairs, f)),
    decreases pairs.len(),
{
    let m = map_vals(pairs, f);
    if pairs.len() == 0 {
        assert(map_vals(collect(pairs), f) =~= collect(m));
    } else {
        lemma_collect_map(pairs.drop_last(), f);
        assert(map_vals(pairs.drop_last(), f) =~= m.drop_last());
        lemma_ins_map(collect(pairs.drop_last()), pairs.last().0, pairs.last().1, f);
    }
}

/// Puts `(key, val)` into a list of pairs as `BTreeMap::insert` puts it into
/// a map: a pair with an equal key takes the new value and keeps its key;
/// otherwise the pair goes before the first greater key.
pub fn insert_entry<V>(entries: &mut Vec<(String, V)>, key: String, val: V)
    ensures
        keyed(final(entries)@) == ins(keyed(old(entries)@), key@, val),
{
    let ghost s = keyed(old(entries)@);
    let ghost k = key@;
    let mut i: usize = 0;
    while i < entries.len()
        invariant
            0 <= i <= entries@.len(),
            keyed(entries@) == s,
            s == keyed(old(entries)@),
            k == key@,
            forall|j: int| 0 <= j < i ==> key_lt(#[trigger] s[j].0, k),
        decreases entries@.len() - i,
    {
        let order = compare_text(entries[i].0.as_str(), key.as_str());
        assert(s[i as int] == (entries@[i as int].0@, entries@[i as int].1));
        if order == KeyOrder::Equal {
            proof {
                lemma_ins_skip_prefix(s, k, val, i as int);
            }
            let existing = entries[i].0.clone();
            entries.set(i, (existing, val));
            assert(keyed(entries@) =~= s.take(i as int) + ins(s.skip(i as int), k, val));
            return;
        } else if order == KeyOrder::Greater {
            proof {
                lemma_ins_skip_prefix(s, k, val, i as int);
            }
            entries.insert(i, (key, val));
            assert(keyed(entries@) =~= s.take(i as int) + ins(s.skip(i as int), k, val));
            return;
        }
        i = i + 1;
    }
    proof {
        lemma_ins_after_all(s, k, val);
    }
    entries.push((key, val));
    assert(keyed(entries@) =~= s.push((k, val)));
}

/// Collects pairs into a sorted list as `BTreeMap::from_iter` does.
pub fn collect_entries<V>(pairs: Vec<(String, V)>) -> (res: Vec<(String, V)>)
    ensures
        keyed(res@) == collect(keyed(pairs@)),
        sorted_keys(keyed(res@)),
{
    let ghost all = keyed(pairs@);
    let mut rest = pairs;
    let mut res: Vec<(String, V)> = Vec::new();
    let mut i: usize = 0;
    let total = rest.len();
    assert(all.len() == total);
    assert(all.skip(0) =~= all);
    assert(all.take(0) =~= Seq::<(Seq<char>, V)>::empty());
    assert(keyed(res@) =~= Seq::<(Seq<char>, V)>::empty());
    while rest.len() > 0
        invariant
            i + rest@.len() == all.len(),
            all.len() <= usize::MAX,
            keyed(rest@) == all.skip(i as int),
            keyed(res@) == collect(all.take(i as int)),
        decreases rest@.len(),
    {
        let ghost before = rest@;
        let (k, v) = rest.remove(0);
        assert(all.skip(i as int)[0] == (k@, v));
        assert(rest@ =~= before.drop_first());
        assert(keyed(rest@) =~= keyed(before).drop_first());
        assert(all.skip(i as int).drop_first() =~= all.skip(i + 1));
        assert(all.take(i + 1).drop_last() =~= all.take(i as int));
        assert(all.take(i + 1).last() == (k@, v));
        insert_entry(&mut res, k, v);
        i = i + 1;
    }
    assert(all.take(i as int) =~= all);
    proof {
        lemma_collect_sorted(all);
    }
    res
}

/// In a list in increasing key order, each key finds its own pair.
pub proof fn lemma_lookup_sorted_at<A>(s: Seq<(Seq<char>, A)>, i: int)
    requires
        sorted_keys(s),
        0 <= i < s.len(),
    ensures
        lookup(s, s[i].0) == Some(s[i].1),
    decreases s.len(),
{
    if i > 0 {
        assert(key_lt(s[0].0, s[i].0));
        if s[0].0 == s[i].0 {
            crate::text::lemma_key_lt_irreflexive(s[0].0);
        }
        let t = s.drop_first();
        assert forall|a: int, b: int| 0 <= a < b < t.len() implies key_lt(#[trigger] t[a].0, #[trigger] t[b].0) by {
            assert(t[a] == s[a + 1]);
            assert(t[b] == s[b + 1]);
        }
        lemma_lookup_sorted_at(t, i - 1);
        assert(t[i - 1] == s[i]);
    }
}

/// Among pairs whose keys differ, the last value of a key is the value of
/// its pair.
pub proof fn lemma_last_value_distinct<A>(s: Seq<(Seq<char>, A)>, i: int)
    requires
        forall|a: int, b: int| 0 <= a < b < s.len() ==> #[trigger] s[a].0 != #[trigger] s[b].0,
        0 <= i < s.len(),
    ensures
        last_value(s, s[i].0) == Some(s[i].1),
    decreases s.len(),
{
    if i < s.len() - 1 {
        assert(s[i].0 != s[s.len() - 1].0);
        let t = s.drop_last();
        assert forall|a: int, b: int| 0 <= a < b < t.len() implies #[trigger] t[a].0 != #[trigger] t[b].0 by {
            assert(t[a] == s[a]);
            assert(t[b] == s[b]);
        }
        lemma_last_value_distinct(t, i);
        assert(t[i] == s[i]);
    }
}

/// A key that no pair has has no last value.
pub proof fn lemma_last_value_absent<A>(s: Seq<(Seq<char>, A)>, k: Seq<char>)
    requires
        forall|a: int| 0 <= a < s.len() ==> #[trigger] s[a].0 != k,
    ensures
        last_value(s, k) is None,
    decreases s.len(),
{
    if s.len() > 0 {
        assert(s[s.len() - 1].0 != k);
        let t = s.drop_last();
        assert forall|a: int| 0 <= a < t.len() implies #[trigger] t[a].0 != k by {
            assert(t[a] == s[a]);
        }
        lemma_last_value_absent(t, k);
    }
}

/// Mapping the values maps the last value of each key.
pub proof fn lemma_last_value_map<A, B>(s: Seq<(Seq<char>, A)>, f: spec_fn(A) -> B, k: Seq<char>)
    ensures
        last_value(map_vals(s, f), k) == match last_value(s, k) {
            Some(v) => Some(f(v)),
            None => None,
        },
    decreases s.len(),
{
    if s.len() > 0 {
        assert(map_vals(s, f).drop_last() =~= map_vals(s.drop_last(), f));
        lemma_last_value_map(s.drop_last(), f, k);
    }
}

} // verus!
