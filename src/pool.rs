//! The pool: items keyed by a dense positional index `1..=total`.
use std::collections::HashMap;
use vstd::prelude::*;

use crate::msg::PreLoad;

verus! {

broadcast use vstd::std_specs::hash::group_hash_axioms;

/// The occupied keys are exactly `1..=n`.
pub open spec fn dense(m: Map<u16, PreLoad>, n: u16) -> bool {
    forall|k: u16| #[trigger] m.contains_key(k) <==> 1 <= k <= n
}

/// The store after removing key `k` from a dense store of size `n`: the item
/// at the last key `n` moves into slot `k`, unless `k` is that last key.
pub open spec fn compact(m: Map<u16, PreLoad>, k: u16, n: u16) -> Map<u16, PreLoad> {
    if k == n {
        m.remove(n)
    } else {
        m.remove(n).insert(k, m[n])
    }
}

/// The key in `1..=n` that a raw draw selects.
pub open spec fn draw_key(raw: u32, n: u16) -> u16
    recommends
        n > 0,
{
    ((raw as int) % (n as int) + 1) as u16
}

/// Draw one item per raw value, in order, each against the store that the
/// earlier draws left: the items drawn, and the store that remains.
pub open spec fn run_draws(m: Map<u16, PreLoad>, n: u16, draws: Seq<u32>) -> (Seq<PreLoad>, Map<u16, PreLoad>)
    decreases draws.len(),
{
    if draws.len() == 0 {
        (Seq::empty(), m)
    } else {
        let prev = run_draws(m, n, draws.drop_last());
        let cur = (n - (draws.len() - 1)) as u16;
        let k = draw_key(draws.last(), cur);
        (prev.0.push(prev.1[k]), compact(prev.1, k, cur))
    }
}

/// Removing a key from a dense store by compaction keeps it dense.
pub proof fn lemma_compact_dense(m: Map<u16, PreLoad>, k: u16, n: u16)
    requires
        dense(m, n),
        1 <= k <= n,
    ensures
        dense(compact(m, k, n), (n - 1) as u16),
{
    let c = compact(m, k, n);
    assert forall|j: u16| #[trigger] c.contains_key(j) <==> 1 <= j <= n - 1 by {
        assert(m.contains_key(j) <==> 1 <= j <= n);
    }
}

/// No two items of keys `1..=n` share a stable identifier.
pub open spec fn ids_distinct(m: Map<u16, PreLoad>, n: u16) -> bool {
    forall|k1: u16, k2: u16|
        1 <= k1 <= n && 1 <= k2 <= n && k1 != k2 ==> #[trigger] m[k1].id@ != #[trigger] m[k2].id@
}

/// No two items of `s` share a stable identifier.
pub open spec fn seq_ids_distinct(s: Seq<PreLoad>) -> bool {
    forall|i: int, j: int| 0 <= i < s.len() && 0 <= j < s.len() && i != j ==> #[trigger] s[i].id@ != #[trigger] s[j].id@
}

/// Drawing from a dense pool of size `n` at most `n` times yields one item per
/// draw and leaves a dense pool of size `n` minus the number of draws.
pub proof fn lemma_run_draws_dense(m: Map<u16, PreLoad>, n: u16, draws: Seq<u32>)
    requires
        dense(m, n),
        draws.len() <= n,
    ensures
        run_draws(m, n, draws).0.len() == draws.len(),
        dense(run_draws(m, n, draws).1, (n - draws.len()) as u16),
    decreases draws.len(),
{
    if draws.len() > 0 {
        lemma_run_draws_dense(m, n, draws.drop_last());
        let prev = run_draws(m, n, draws.drop_last());
        let cur = (n - (draws.len() - 1)) as u16;
        lemma_compact_dense(prev.1, draw_key(draws.last(), cur), cur);
    }
}

/// No item is allocated twice: when the identifiers in a dense pool are
/// distinct, the items drawn have pairwise distinct identifiers, none of which
/// is still held by the pool that remains, and the remaining identifiers stay
/// distinct.
#[verifier::spinoff_prover]
pub proof fn lemma_no_duplicate_allocation(m: Map<u16, PreLoad>, n: u16, draws: Seq<u32>)
    requires
        dense(m, n),
        ids_distinct(m, n),
        draws.len() <= n,
    ensures
        seq_ids_distinct(run_draws(m, n, draws).0),
        forall|i: int, k: u16|
            0 <= i < draws.len() && #[trigger] run_draws(m, n, draws).1.contains_key(k)
                ==> #[trigger] run_draws(m, n, draws).0[i].id@ != run_draws(m, n, draws).1[k].id@,
        ids_distinct(run_draws(m, n, draws).1, (n - draws.len()) as u16),
    decreases draws.len(),
{
    lemma_run_draws_dense(m, n, draws);
    if draws.len() > 0 {
        let d = draws.drop_last();
        lemma_no_duplicate_allocation(m, n, d);
        lemma_run_draws_dense(m, n, d);
        let (a, r) = run_draws(m, n, d);
        let cur = (n - (draws.len() - 1)) as u16;
        let k = draw_key(draws.last(), cur);
        let a2 = a.push(r[k]);
        let r2 = compact(r, k, cur);
        assert(r.contains_key(k));
        assert(seq_ids_distinct(a2)) by {
            assert forall|i: int, j: int| 0 <= i < a2.len() && 0 <= j < a2.len() && i != j
                implies #[trigger] a2[i].id@ != #[trigger] a2[j].id@ by {
                if i == a.len() {
                    assert(a[j].id@ != r[k].id@);
                } else if j == a.len() {
                    assert(a[i].id@ != r[k].id@);
                } else {
                    assert(a[i] == a2[i] && a[j] == a2[j]);
                }
            }
        }
        assert forall|i: int, j: u16| 0 <= i < a2.len() && #[trigger] r2.contains_key(j)
            implies #[trigger] a2[i].id@ != r2[j].id@ by {
            assert(1 <= j < cur);
            let src: u16 = if j == k { cur } else { j };
            assert(r.contains_key(src));
            assert(r2[j] == r[src]);
            if i < a.len() {
                assert(a2[i] == a[i]);
            } else {
                assert(src != k);
            }
        }
        assert forall|j1: u16, j2: u16| 1 <= j1 <= cur - 1 && 1 <= j2 <= cur - 1 && j1 != j2
            implies #[trigger] r2[j1].id@ != #[trigger] r2[j2].id@ by {
            let s1: u16 = if j1 == k { cur } else { j1 };
            let s2: u16 = if j2 == k { cur } else { j2 };
            assert(r2[j1] == r[s1]);
            assert(r2[j2] == r[s2]);
        }
    }
}

/// The items at keys `1..=n`, in key order.
pub open spec fn items_of(m: Map<u16, PreLoad>, n: u16) -> Seq<PreLoad> {
    Seq::new(n as nat, |i: int| m[(i + 1) as u16])
}

/// Compaction takes out exactly the item at key `k`: the remaining items,
/// with it, are the items before.
pub proof fn lemma_compact_items(m: Map<u16, PreLoad>, k: u16, n: u16)
    requires
        dense(m, n),
        1 <= k <= n,
    ensures
        items_of(compact(m, k, n), (n - 1) as u16).to_multiset().insert(m[k]) == items_of(m, n).to_multiset(),
{
    broadcast use vstd::seq_lib::group_to_multiset_ensures;
    broadcast use vstd::multiset::group_multiset_axioms;

    let s = items_of(m, n);
    let t = items_of(compact(m, k, n), (n - 1) as u16);
    if k == n {
        assert(s =~= t.push(m[k]));
    } else {
        let x = s[n - 1];
        let u = s.update(k - 1, x);
        assert(u =~= t.push(x));
        assert(s[k - 1] == m[k]);
        assert(u.to_multiset() == s.to_multiset().insert(x).remove(m[k]));
        assert(t.to_multiset().insert(x) == s.to_multiset().insert(x).remove(m[k]));
        assert(s.to_multiset().count(m[k]) > 0) by {
            assert(s.contains(m[k]));
        }
        assert forall|v: PreLoad| #[trigger] t.to_multiset().insert(m[k]).count(v) == s.to_multiset().count(v) by {
            assert(t.to_multiset().insert(x).count(v) == s.to_multiset().insert(x).remove(m[k]).count(v));
        }
        assert(t.to_multiset().insert(m[k]) =~= s.to_multiset());
    }
}

/// Each item is destroyed exactly once: the items drawn, followed by the
/// items that remain, are the items of the pool before, up to order.
pub proof fn lemma_run_draws_conserves(m: Map<u16, PreLoad>, n: u16, draws: Seq<u32>)
    requires
        dense(m, n),
        draws.len() <= n,
    ensures
        (run_draws(m, n, draws).0 + items_of(run_draws(m, n, draws).1, (n - draws.len()) as u16)).to_multiset()
            == items_of(m, n).to_multiset(),
    decreases draws.len(),
{
    broadcast use vstd::seq_lib::group_to_multiset_ensures;
    broadcast use vstd::multiset::group_multiset_axioms;

    if draws.len() == 0 {
        assert(run_draws(m, n, draws).0 + items_of(m, n) =~= items_of(m, n));
    } else {
        let d = draws.drop_last();
        lemma_run_draws_conserves(m, n, d);
        lemma_run_draws_dense(m, n, d);
        let (a, r) = run_draws(m, n, d);
        let cur = (n - d.len()) as u16;
        let k = draw_key(draws.last(), cur);
        lemma_compact_items(r, k, cur);
        let rest = items_of(compact(r, k, cur), (cur - 1) as u16);
        vstd::seq_lib::lemma_multiset_commutative(a, items_of(r, cur));
        vstd::seq_lib::lemma_multiset_commutative(a.push(r[k]), rest);
        assert(a.push(r[k]).to_multiset() == a.to_multiset().insert(r[k]));
        assert(a.push(r[k]).to_multiset().add(rest.to_multiset()) =~= a.to_multiset().add(items_of(r, cur).to_multiset()));
    }
}

/// The pool store.
#[derive(Debug)]
pub struct Pool {
    store: HashMap<u16, PreLoad>,
}

impl View for Pool {
    type V = Map<u16, PreLoad>;

    closed spec fn view(&self) -> Map<u16, PreLoad> {
        self.store@
    }
}

impl Pool {
    /// An empty pool.
    pub fn new() -> (r: Pool)
        ensures
            r@ == Map::<u16, PreLoad>::empty(),
    {
        Pool { store: HashMap::new() }
    }

    /// Put `item` at `key`, replacing what was there.
    pub fn insert(&mut self, key: u16, item: PreLoad)
        ensures
            final(self)@ == old(self)@.insert(key, item),
    {
        self.store.insert(key, item);
    }

    /// The item at `key`, if any.
    pub fn get(&self, key: u16) -> (r: Option<&PreLoad>)
        ensures
            r matches Some(v) ==> self@.contains_key(key) && *v == self@[key],
            r is None ==> !self@.contains_key(key),
    {
        self.store.get(&key)
    }

    /// Whether `key` is occupied.
    pub fn contains(&self, key: u16) -> (r: bool)
        ensures
            r == self@.contains_key(key),
    {
        self.store.contains_key(&key)
    }

    /// Remove the entry at `key`, if there is one.
    pub fn remove(&mut self, key: u16)
        ensures
            final(self)@ == old(self)@.remove(key),
    {
        self.store.remove(&key);
    }

    /// Take the item at key `k` out of a dense pool of size `n`, moving the
    /// item at key `n` into the freed slot.
    pub fn take_at(&mut self, k: u16, n: u16) -> (item: PreLoad)
        requires
            dense(old(self)@, n),
            1 <= k <= n,
        ensures
            item == old(self)@[k],
            final(self)@ == compact(old(self)@, k, n),
            dense(final(self)@, (n - 1) as u16),
    {
        proof {
            lemma_compact_dense(self@, k, n);
        }
        let ghost m = self@;
        assert(m.contains_key(n));
        let last = self.store.remove(&n).unwrap();
        if k == n {
            last
        } else {
            assert(self@.contains_key(k));
            let item = self.store.remove(&k).unwrap();
            self.store.insert(k, last);
            assert(self@ =~= compact(m, k, n));
            item
        }
    }

    /// Draw one item per raw value in `draws`, in order, from a dense pool of
    /// size `total`; each draw picks key `raw % current + 1`, where `current`
    /// is the size that the earlier draws left.
    pub fn draw_many(&mut self, total: u16, draws: &Vec<u32>) -> (r: Vec<PreLoad>)
        requires
            dense(old(self)@, total),
            draws@.len() <= total,
        ensures
            (r@, final(self)@) == run_draws(old(self)@, total, draws@),
            dense(final(self)@, (total - draws@.len()) as u16),
    {
        let ghost m0 = self@;
        let mut out: Vec<PreLoad> = Vec::new();
        let mut cur: u16 = total;
        let mut i: usize = 0;
        assert(draws@.subrange(0, 0) =~= Seq::<u32>::empty());
        while i < draws.len()
            invariant
                draws@.len() <= total,
                i <= draws@.len(),
                cur == total - i,
                dense(self@, cur),
                (out@, self@) == run_draws(m0, total, draws@.subrange(0, i as int)),
            decreases draws@.len() - i,
        {
            let raw = draws[i];
            let k: u16 = ((raw % (cur as u32)) as u16) + 1;
            assert(k == draw_key(raw, cur));
            let item = self.take_at(k, cur);
            out.push(item);
            let ghost s = draws@.subrange(0, i + 1);
            assert(s.drop_last() =~= draws@.subrange(0, i as int));
            i = i + 1;
            cur = cur - 1;
        }
        assert(draws@.subrange(0, i as int) =~= draws@);
        out
    }
}

} // verus!
