//! Maps keyed by `usize`, held in `BTreeMap`s: their keys in increasing
//! order, and putting in and taking out one entry.
use std::collections::BTreeMap;
use vstd::prelude::*;
use vstd::std_specs::cmp::OrdSpec;
use vstd::std_specs::iter::IteratorSpec;

verus! {

broadcast use vstd::std_specs::btree::group_btree_axioms, vstd::laws_cmp::group_laws_cmp;

/// Whether the keys increase strictly along `s`.
pub open spec fn increasing(s: Seq<usize>) -> bool {
    forall|i: int, j: int| 0 <= i < j < s.len() ==> #[trigger] s[i] < #[trigger] s[j]
}

/// Whether `s` lists the keys of `m` in increasing order, each once.
pub open spec fn lists_keys<V>(s: Seq<usize>, m: Map<usize, V>) -> bool {
    &&& increasing(s)
    &&& forall|k: usize| #[trigger] m.dom().contains(k) <==> s.contains(k)
}

/// The keys of `m` in increasing order.
pub open spec fn key_order<V>(m: Map<usize, V>) -> Seq<usize> {
    choose|s: Seq<usize>| lists_keys(s, m)
}

proof fn lemma_increasing_unique(a: Seq<usize>, b: Seq<usize>)
    requires
        increasing(a),
        increasing(b),
        forall|k: usize| a.contains(k) <==> b.contains(k),
    ensures
        a == b,
    decreases a.len(),
{
    if a.len() == 0 {
        if b.len() > 0 {
            assert(b.contains(b[0]));
        }
        assert(a =~= b);
    } else if b.len() == 0 {
        assert(a.contains(a[0]));
    } else {
        assert(a.contains(a[0]));
        assert(b.contains(b[0]));
        let i = choose|i: int| 0 <= i < b.len() && b[i] == a[0];
        let j = choose|j: int| 0 <= j < a.len() && a[j] == b[0];
        if i > 0 {
            assert(b[0] < b[i]);
            assert(a[0] <= a[j]);
        }
        assert(a[0] == b[0]);
        let ta = a.drop_first();
        let tb = b.drop_first();
        assert forall|k: usize| ta.contains(k) <==> tb.contains(k) by {
            if ta.contains(k) {
                let x = choose|x: int| 0 <= x < ta.len() && ta[x] == k;
                assert(a[x + 1] == k);
                assert(a[0] < a[x + 1]);
                assert(a.contains(k));
                let y = choose|y: int| 0 <= y < b.len() && b[y] == k;
                assert(y != 0);
                assert(tb[y - 1] == k);
            }
            if tb.contains(k) {
                let x = choose|x: int| 0 <= x < tb.len() && tb[x] == k;
                assert(b[x + 1] == k);
                assert(b[0] < b[x + 1]);
                assert(b.contains(k));
                let y = choose|y: int| 0 <= y < a.len() && a[y] == k;
                assert(y != 0);
                assert(ta[y - 1] == k);
            }
        }
        lemma_increasing_unique(ta, tb);
        assert(a =~= seq![a[0]] + ta);
        assert(b =~= seq![b[0]] + tb);
    }
}

/// The keys of `m` in increasing order are the only list of them that
/// increases.
pub proof fn lemma_key_order<V>(s: Seq<usize>, m: Map<usize, V>)
    requires
        lists_keys(s, m),
    ensures
        key_order(m) == s,
{
    let t = key_order(m);
    assert(lists_keys(t, m));
    assert forall|k: usize| s.contains(k) <==> t.contains(k) by {
        assert(m.dom().contains(k) <==> s.contains(k));
        assert(m.dom().contains(k) <==> t.contains(k));
    }
    lemma_increasing_unique(s, t);
}

/// The keys of the map, in increasing order.
pub fn keys_in_order<V>(m: &BTreeMap<usize, V>) -> (res: Vec<usize>)
    ensures
        lists_keys(res@, m@),
        key_order(m@) == res@,
{
    let mut out: Vec<usize> = Vec::new();
    for k in it: m.keys()
        invariant
            out@ == it.seq().take(it.index()).map_values(|x: &usize| *x),
            it.seq() == vstd::std_specs::btree::spec_keys_iter(m).remaining(),
    {
        out.push(*k);
    }
    proof {
        let s = vstd::std_specs::btree::spec_keys_iter(m).remaining();
        assert(out@ =~= s.unref());
        assert(vstd::laws_cmp::obeys_cmp::<usize>());
        assert(vstd::laws_cmp::obeys_cmp::<&usize>());
        vstd::std_specs::btree::axiom_increasing_seq_meaning(s);
        assert forall|i: int, j: int| 0 <= i < j < out@.len() implies #[trigger] out@[i] < #[trigger] out@[j] by {
            assert(OrdSpec::cmp_spec(&s[i], &s[j]) is Less);
            assert(OrdSpec::cmp_spec(s[i], s[j]) is Less);
            assert(out@[i] == *s[i]);
            assert(out@[j] == *s[j]);
        }
        assert forall|k: usize| #[trigger] m@.dom().contains(k) <==> out@.contains(k) by {
            assert(s.unref().to_set() == m@.dom());
            if out@.contains(k) {
                assert(s.unref().to_set().contains(k));
            }
            if m@.dom().contains(k) {
                assert(s.unref().to_set().contains(k));
                assert(s.unref().contains(k));
            }
        }
        lemma_key_order(out@, m@);
    }
    out
}

/// Puts `(k, v)` into the map, in place of any entry with key `k`.
pub fn put_key<V>(m: &mut BTreeMap<usize, V>, k: usize, v: V)
    ensures
        final(m)@ == old(m)@.insert(k, v),
{
    assert(vstd::laws_cmp::obeys_cmp::<usize>());
    m.insert(k, v);
}

/// Takes the entry with key `k` out of the map and gives its value.
pub fn take_key<V>(m: &mut BTreeMap<usize, V>, k: usize) -> (res: V)
    requires
        old(m)@.contains_key(k),
    ensures
        final(m)@ == old(m)@.remove(k),
        res == old(m)@[k],
{
    assert(vstd::laws_cmp::obeys_cmp::<usize>());
    m.remove(&k).unwrap()
}

proof fn lemma_max_exists(d: Set<usize>)
    requires
        d.finite(),
        d.len() > 0,
    ensures
        exists|m: usize| d.contains(m) && forall|x: usize| d.contains(x) ==> x <= m,
    decreases d.len(),
{
    let x = d.choose();
    assert(d.contains(x));
    let r = d.remove(x);
    if r.len() == 0 {
        assert forall|y: usize| d.contains(y) implies y <= x by {
            if y != x {
                assert(r.contains(y));
            }
        }
    } else {
        lemma_max_exists(r);
        let m = choose|m: usize| r.contains(m) && forall|y: usize| r.contains(y) ==> y <= m;
        if x <= m {
            assert forall|y: usize| d.contains(y) implies y <= m by {
                if y != x {
                    assert(r.contains(y));
                }
            }
        } else {
            assert forall|y: usize| d.contains(y) implies y <= x by {
                if y != x {
                    assert(r.contains(y));
                }
            }
        }
    }
}

proof fn lemma_set_listable(d: Set<usize>)
    requires
        d.finite(),
    ensures
        exists|s: Seq<usize>| increasing(s) && forall|k: usize| d.contains(k) <==> s.contains(k),
    decreases d.len(),
{
    if d.len() == 0 {
        let s = Seq::<usize>::empty();
        assert forall|k: usize| d.contains(k) <==> s.contains(k) by {
            if d.contains(k) {
                assert(d.remove(k).len() < d.len());
            }
        }
        assert(increasing(s));
    } else {
        lemma_max_exists(d);
        let m = choose|m: usize| d.contains(m) && forall|x: usize| d.contains(x) ==> x <= m;
        let r = d.remove(m);
        lemma_set_listable(r);
        let t = choose|t: Seq<usize>| increasing(t) && forall|k: usize| r.contains(k) <==> t.contains(k);
        let s = t.push(m);
        assert forall|i: int, j: int| 0 <= i < j < s.len() implies #[trigger] s[i] < #[trigger] s[j] by {
            if j == t.len() {
                assert(t.contains(t[i]));
                assert(r.contains(t[i]));
            } else {
                assert(s[i] == t[i] && s[j] == t[j]);
            }
        }
        assert forall|k: usize| d.contains(k) <==> s.contains(k) by {
            if d.contains(k) {
                if k == m {
                    assert(s[t.len() as int] == m);
                } else {
                    assert(r.contains(k));
                    let i = choose|i: int| 0 <= i < t.len() && t[i] == k;
                    assert(s[i] == k);
                }
            }
            if s.contains(k) {
                let i = choose|i: int| 0 <= i < s.len() && s[i] == k;
                if i < t.len() {
                    assert(t[i] == k);
                    assert(t.contains(k));
                }
            }
        }
        assert(increasing(s));
    }
}

/// A map with finitely many keys lists them in increasing order.
pub proof fn lemma_key_order_lists<V>(m: Map<usize, V>)
    requires
        m.dom().finite(),
    ensures
        lists_keys(key_order(m), m),
{
    lemma_set_listable(m.dom());
    let s = choose|s: Seq<usize>| increasing(s) && forall|k: usize| m.dom().contains(k) <==> s.contains(k);
    assert(lists_keys(s, m));
}

} // verus!
