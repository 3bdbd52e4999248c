//! The order store: an in-memory mapping from order identifier to the
//! append-only history of accepted versions filed under that identifier.

use vstd::prelude::*;

use crate::order::Order;
use crate::validate::Field;
use crate::validate::order_valid;
use crate::validate::validate_order;
use crate::validate::violations;

verus! {

/// One key of the store together with every version filed under it,
/// oldest first.
struct Entry {
    uid: String,
    history: Vec<Order>,
}

/// Entries carry pairwise different keys, and no history is empty.
spec fn entries_wf(es: Seq<Entry>) -> bool {
    &&& forall|p: int, q: int| 0 <= p < q < es.len() ==> es[p].uid@ != es[q].uid@
    &&& forall|p: int| 0 <= p < es.len() ==> es[p].history@.len() > 0
}

/// The mapping from key to history that a sequence of entries stands for.
spec fn entries_map(es: Seq<Entry>) -> Map<Seq<char>, Seq<Order>> {
    Map::new(
        |k: Seq<char>| exists|p: int| 0 <= p < es.len() && es[p].uid@ == k,
        |k: Seq<char>|
            {
                let p = choose|p: int| 0 <= p < es.len() && es[p].uid@ == k;
                es[p].history@
            },
    )
}

proof fn lemma_entry_lookup(es: Seq<Entry>, p: int)
    requires
        entries_wf(es),
        0 <= p < es.len(),
    ensures
        entries_map(es).contains_key(es[p].uid@),
        entries_map(es)[es[p].uid@] == es[p].history@,
{
    let k = es[p].uid@;
    assert(0 <= p < es.len() && es[p].uid@ == k);
    let q = choose|q: int| 0 <= q < es.len() && es[q].uid@ == k;
    if p < q {
        assert(es[p].uid@ != es[q].uid@);
    } else if q < p {
        assert(es[q].uid@ != es[p].uid@);
    }
}

/// Decides whether a stored key equals a queried identifier.
fn same_key(a: &String, b: &str) -> (r: bool)
    ensures
        r == (a@ == b@),
{
    let owned: String = b.to_owned();
    a.eq(&owned)
}

/// The in-memory store. Every accepted version of an order is kept: a
/// write appends, nothing overwrites and nothing deletes.
pub struct OrderStore {
    entries: Vec<Entry>,
}

impl View for OrderStore {
    type V = Map<Seq<char>, Seq<Order>>;

    closed spec fn view(&self) -> Map<Seq<char>, Seq<Order>> {
        entries_map(self.entries@)
    }
}

impl OrderStore {
    /// Internal consistency: one history per key, none of them empty.
    pub closed spec fn wf(&self) -> bool {
        entries_wf(self.entries@)
    }

    /// The mapping after one order is filed: the new version is appended
    /// to its key's history, and a first version creates the history.
    pub open spec fn spec_put(m: Map<Seq<char>, Seq<Order>>, o: Order) -> Map<
        Seq<char>,
        Seq<Order>,
    > {
        if m.contains_key(o.uid()) {
            m.insert(o.uid(), m[o.uid()].push(o))
        } else {
            m.insert(o.uid(), seq![o])
        }
    }

    /// The mapping after a whole sequence of orders is filed, in order.
    pub open spec fn put_all(m: Map<Seq<char>, Seq<Order>>, orders: Seq<Order>) -> Map<
        Seq<char>,
        Seq<Order>,
    >
        decreases orders.len(),
    {
        if orders.len() == 0 {
            m
        } else {
            Self::spec_put(Self::put_all(m, orders.drop_last()), orders.last())
        }
    }

    /// Law of append-only history: after any sequence of writes under one
    /// identifier, that key's history is exactly what was there before
    /// followed by the written versions in order — so its length counts
    /// the accepted writes, and the latest version is the last one
    /// submitted.
    pub proof fn lemma_append_only(
        m: Map<Seq<char>, Seq<Order>>,
        orders: Seq<Order>,
        u: Seq<char>,
    )
        requires
            orders.len() > 0,
            forall|t: int| 0 <= t < orders.len() ==> #[trigger] orders[t].uid() == u,
        ensures
            Self::put_all(m, orders).contains_key(u),
            Self::put_all(m, orders)[u] == (if m.contains_key(u) {
                m[u]
            } else {
                Seq::<Order>::empty()
            }) + orders,
            Self::put_all(m, orders)[u].last() == orders.last(),
            Self::put_all(m, orders)[u].len() == (if m.contains_key(u) {
                m[u].len()
            } else {
                0
            }) + orders.len(),
        decreases orders.len(),
    {
        let base = if m.contains_key(u) {
            m[u]
        } else {
            Seq::<Order>::empty()
        };
        let prefix = orders.drop_last();
        if orders.len() == 1 {
            assert(Self::put_all(m, prefix) == m);
            if m.contains_key(u) {
                assert(m[u].push(orders.last()) =~= base + orders);
            } else {
                assert(seq![orders.last()] =~= base + orders);
            }
        } else {
            assert(prefix[prefix.len() - 1].uid() == u);
            Self::lemma_append_only(m, prefix, u);
            assert((base + prefix).push(orders.last()) =~= base + orders);
        }
    }

    /// Law of key isolation: filing an order under one identifier leaves
    /// the presence and the history of every other key untouched.
    pub proof fn lemma_key_isolation(m: Map<Seq<char>, Seq<Order>>, o: Order, k: Seq<char>)
        requires
            k != o.uid(),
        ensures
            Self::spec_put(m, o).contains_key(k) == m.contains_key(k),
            m.contains_key(k) ==> Self::spec_put(m, o)[k] == m[k],
    {
    }

    /// Law of idempotent absence: an identifier that no write ever used
    /// stays absent, however many writes happened — so a read of it
    /// reports not-found, and reading mutates nothing.
    pub proof fn lemma_unwritten_absent(
        m: Map<Seq<char>, Seq<Order>>,
        orders: Seq<Order>,
        u: Seq<char>,
    )
        requires
            !m.contains_key(u),
            forall|t: int| 0 <= t < orders.len() ==> #[trigger] orders[t].uid() != u,
        ensures
            !Self::put_all(m, orders).contains_key(u),
        decreases orders.len(),
    {
        if orders.len() > 0 {
            Self::lemma_unwritten_absent(m, orders.drop_last(), u);
        }
    }

    /// An empty store.
    pub fn new() -> (s: Self)
        ensures
            s.wf(),
            s@ == Map::<Seq<char>, Seq<Order>>::empty(),
    {
        let s = OrderStore { entries: Vec::new() };
        proof {
            assert(s@ =~= Map::<Seq<char>, Seq<Order>>::empty());
        }
        s
    }

    fn find(&self, uid: &str) -> (r: Option<usize>)
        ensures
            match r {
                Some(p) => p < self.entries@.len() && self.entries@[p as int].uid@ == uid@,
                None => forall|q: int|
                    0 <= q < self.entries@.len() ==> self.entries@[q].uid@ != uid@,
            },
    {
        let n = self.entries.len();
        let mut p: usize = 0;
        while p < n
            invariant
                p <= n,
                n == self.entries@.len(),
                forall|q: int| 0 <= q < p ==> self.entries@[q].uid@ != uid@,
            decreases n - p,
        {
            let e = &self.entries[p];
            if same_key(&e.uid, uid) {
                return Some(p);
            }
            p += 1;
        }
        None
    }

    /// Files one validated order under its identifier, appending to the
    /// history already present or opening a fresh one.
    pub fn put(&mut self, order: Order)
        requires
            old(self).wf(),
            order_valid(order),
        ensures
            final(self).wf(),
            final(self)@ == Self::spec_put(old(self)@, order),
    {
        let ghost oe = self.entries@;
        let ghost k0 = order.uid();
        match self.find(order.order_uid.as_str()) {
            Some(p) => {
                proof {
                    lemma_entry_lookup(oe, p as int);
                }
                let e = &mut self.entries[p];
                e.history.push(order);
                proof {
                    let ne = self.entries@;
                    assert(forall|q: int| 0 <= q < ne.len() ==> ne[q].uid@ == oe[q].uid@);
                    assert(self.wf());
                    let rhs = Self::spec_put(entries_map(oe), order);
                    assert forall|k: Seq<char>| entries_map(ne).contains_key(k)
                        == rhs.contains_key(k) by {}
                    assert forall|k: Seq<char>| rhs.contains_key(k) implies entries_map(ne)[k]
                        == rhs[k] by {
                        let q = choose|q: int| 0 <= q < oe.len() && oe[q].uid@ == k;
                        lemma_entry_lookup(oe, q);
                        lemma_entry_lookup(ne, q);
                        if q != p as int {
                            assert(k != k0);
                        }
                    }
                    assert(entries_map(ne) =~= rhs);
                }
            },
            None => {
                let uid_key: String = order.order_uid.clone();
                let mut h: Vec<Order> = Vec::new();
                h.push(order);
                self.entries.push(Entry { uid: uid_key, history: h });
                proof {
                    let ne = self.entries@;
                    assert(ne.len() == oe.len() + 1);
                    assert(ne[oe.len() as int].uid@ == k0);
                    assert(ne[oe.len() as int].history@ =~= seq![order]);
                    assert(self.wf());
                    let rhs = Self::spec_put(entries_map(oe), order);
                    assert(!entries_map(oe).contains_key(k0));
                    assert forall|k: Seq<char>| entries_map(ne).contains_key(k)
                        == rhs.contains_key(k) by {
                        if entries_map(ne).contains_key(k) {
                            let q = choose|q: int| 0 <= q < ne.len() && ne[q].uid@ == k;
                            if q < oe.len() {
                                assert(oe[q].uid@ == k);
                            }
                        }
                        if rhs.contains_key(k) {
                            if k == k0 {
                                assert(ne[oe.len() as int].uid@ == k);
                            } else {
                                let q = choose|q: int| 0 <= q < oe.len() && oe[q].uid@ == k;
                                assert(ne[q].uid@ == k);
                            }
                        }
                    }
                    assert forall|k: Seq<char>| rhs.contains_key(k) implies entries_map(ne)[k]
                        == rhs[k] by {
                        if k == k0 {
                            lemma_entry_lookup(ne, oe.len() as int);
                        } else {
                            let q = choose|q: int| 0 <= q < oe.len() && oe[q].uid@ == k;
                            lemma_entry_lookup(oe, q);
                            lemma_entry_lookup(ne, q);
                        }
                    }
                    assert(entries_map(ne) =~= rhs);
                }
            },
        }
    }

    /// Validates, then files the document. An invalid document is
    /// rejected with the full list of violated fields, and the store is
    /// left exactly as it was.
    pub fn submit(&mut self, order: Order) -> (r: Result<(), Vec<Field>>)
        requires
            old(self).wf(),
        ensures
            final(self).wf(),
            match r {
                Ok(()) => order_valid(order) && final(self)@ == Self::spec_put(old(self)@, order),
                Err(v) => {
                    &&& !order_valid(order)
                    &&& v@ == violations(order)
                    &&& v@.len() > 0
                    &&& final(self)@ == old(self)@
                },
            },
    {
        match validate_order(&order) {
            Ok(()) => {
                self.put(order);
                Ok(())
            },
            Err(v) => Err(v),
        }
    }

    /// The latest accepted version under `uid`, if any write ever used
    /// that identifier. Reading mutates nothing: repeated calls on the
    /// same store observe the same answer.
    pub fn get(&self, uid: &str) -> (r: Option<&Order>)
        requires
            self.wf(),
        ensures
            match r {
                Some(o) => self@.contains_key(uid@) && *o == self@[uid@].last(),
                None => !self@.contains_key(uid@),
            },
    {
        match self.find(uid) {
            Some(p) => {
                proof {
                    lemma_entry_lookup(self.entries@, p as int);
                }
                let e = &self.entries[p];
                let n = e.history.len();
                Some(&e.history[n - 1])
            },
            None => None,
        }
    }

    /// The full version history under `uid`, oldest first, if present.
    pub fn history(&self, uid: &str) -> (r: Option<&Vec<Order>>)
        requires
            self.wf(),
        ensures
            match r {
                Some(h) => self@.contains_key(uid@) && h@ == self@[uid@],
                None => !self@.contains_key(uid@),
            },
    {
        match self.find(uid) {
            Some(p) => {
                proof {
                    lemma_entry_lookup(self.entries@, p as int);
                }
                Some(&self.entries[p].history)
            },
            None => None,
        }
    }

    /// `l` is a faithful listing of the mapping `m`: it names exactly the
    /// keys of `m`, each once, and pairs each with the latest version of
    /// its history.
    pub open spec fn listing_of(m: Map<Seq<char>, Seq<Order>>, l: Seq<(String, Order)>) -> bool {
        &&& forall|t: int|
            0 <= t < l.len() ==> m.contains_key(#[trigger] l[t].0@) && l[t].1.equiv(
                m[l[t].0@].last(),
            )
        &&& forall|k: Seq<char>|
            #[trigger] m.contains_key(k) ==> exists|t: int|
                0 <= t < l.len() && #[trigger] l[t].0@ == k
        &&& forall|t: int, u: int| 0 <= t < u < l.len() ==> l[t].0@ != l[u].0@
    }

    /// A snapshot pairing every known key with its latest version: each
    /// key appears exactly once, mapped to the last element of its
    /// history.
    pub fn list(&self) -> (r: Vec<(String, Order)>)
        requires
            self.wf(),
        ensures
            Self::listing_of(self@, r@),
    {
        let mut r: Vec<(String, Order)> = Vec::new();
        let n = self.entries.len();
        let mut p: usize = 0;
        while p < n
            invariant
                p <= n,
                self.wf(),
                n == self.entries@.len(),
                r@.len() == p,
                forall|t: int|
                    0 <= t < p ==> #[trigger] r@[t].0@ == self.entries@[t].uid@ && r@[t].1.equiv(
                        self.entries@[t].history@.last(),
                    ),
            decreases n - p,
        {
            let e = &self.entries[p];
            let m = e.history.len();
            let latest: Order = e.history[m - 1].clone();
            let key: String = e.uid.clone();
            r.push((key, latest));
            p += 1;
        }
        proof {
            assert forall|t: int|
                0 <= t < r@.len() implies self@.contains_key(#[trigger] r@[t].0@) && r@[t].1.equiv(
                self@[r@[t].0@].last(),
            ) by {
                lemma_entry_lookup(self.entries@, t);
            }
            assert forall|k: Seq<char>| #[trigger] self@.contains_key(k) implies exists|t: int|
                0 <= t < r@.len() && #[trigger] r@[t].0@ == k by {
                let q = choose|q: int|
                    0 <= q < self.entries@.len() && self.entries@[q].uid@ == k;
                assert(r@[q].0@ == k);
            }
        }
        r
    }
}

} // verus!
