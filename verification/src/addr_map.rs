use vstd::prelude::*;

use crate::address::{addr_lt, Addr};

verus! {

/// Entries whose addresses strictly increase from first to last.
pub open spec fn entries_sorted<V>(s: Seq<(Addr, V)>) -> bool {
    forall|i: int, j: int| #![trigger s[i], s[j]] 0 <= i < j < s.len() ==> addr_lt(s[i].0, s[j].0)
}

/// The map that a list of entries with distinct addresses stands for.
pub open spec fn entries_map<V>(s: Seq<(Addr, V)>) -> Map<Addr, V> {
    Map::new(
        |k: Addr| exists|i: int| 0 <= i < s.len() && s[i].0 == k,
        |k: Addr| s[choose|i: int| 0 <= i < s.len() && s[i].0 == k].1,
    )
}

/// `ks` lists the keys of `m` in the ledger's order on addresses, each once.
pub open spec fn is_key_order<V>(m: Map<Addr, V>, ks: Seq<Addr>) -> bool {
    &&& forall|i: int, j: int| #![trigger ks[i], ks[j]] 0 <= i < j < ks.len() ==> addr_lt(ks[i], ks[j])
    &&& forall|k: Addr| m.contains_key(k) <==> ks.contains(k)
}

/// The keys of `m` in the ledger's order on addresses (the order in which the
/// ledger walks a map keyed by addresses).
pub open spec fn key_order<V>(m: Map<Addr, V>) -> Seq<Addr> {
    choose|ks: Seq<Addr>| is_key_order(m, ks)
}

/// The values of `m`, taken in the order of their keys.
pub open spec fn values_in_key_order<V>(m: Map<Addr, V>) -> Seq<V> {
    key_order(m).map_values(|k: Addr| m[k])
}

/// A sorted list of entries holds each of its entries in its map.
pub proof fn lemma_entries_lookup<V>(s: Seq<(Addr, V)>, i: int)
    requires
        entries_sorted(s),
        0 <= i < s.len(),
    ensures
        entries_map(s).contains_key(s[i].0),
        entries_map(s)[s[i].0] == s[i].1,
{
    let k = s[i].0;
    assert(0 <= i < s.len() && s[i].0 == k);
    let j = choose|j: int| 0 <= j < s.len() && s[j].0 == k;
    if j < i {
        assert(addr_lt(s[j].0, s[i].0));
    } else if i < j {
        assert(addr_lt(s[i].0, s[j].0));
    }
}

/// The keys of sorted entries list the keys of their map in order.
pub proof fn lemma_entries_key_order<V>(s: Seq<(Addr, V)>)
    requires
        entries_sorted(s),
    ensures
        is_key_order(entries_map(s), s.map_values(|e: (Addr, V)| e.0)),
        key_order(entries_map(s)) == s.map_values(|e: (Addr, V)| e.0),
{
    let ks = s.map_values(|e: (Addr, V)| e.0);
    assert forall|i: int, j: int| 0 <= i < j < ks.len() implies addr_lt(ks[i], ks[j]) by {
        assert(addr_lt(s[i].0, s[j].0));
    }
    assert forall|k: Addr| entries_map(s).contains_key(k) <==> ks.contains(k) by {
        if entries_map(s).contains_key(k) {
            let i = choose|i: int| 0 <= i < s.len() && s[i].0 == k;
            assert(ks[i] == k);
        }
        if ks.contains(k) {
            let i = choose|i: int| 0 <= i < ks.len() && ks[i] == k;
            assert(s[i].0 == k);
        }
    }
    let m = entries_map(s);
    assert(is_key_order(m, ks));
    let ko = key_order(m);
    assert(is_key_order(m, ko));
    lemma_key_order_unique(m, ko, ks);
}

/// There is only one way to list the keys of a map in order.
pub proof fn lemma_key_order_unique<V>(m: Map<Addr, V>, a: Seq<Addr>, b: Seq<Addr>)
    requires
        is_key_order(m, a),
        is_key_order(m, b),
    ensures
        a == b,
    decreases a.len(),
{
    if a.len() == 0 || b.len() == 0 {
        if a.len() > 0 {
            assert(a.contains(a[0]));
            assert(m.contains_key(a[0]));
            assert(b.contains(a[0]));
            assert(false);
        }
        if b.len() > 0 {
            assert(b.contains(b[0]));
            assert(m.contains_key(b[0]));
            assert(a.contains(b[0]));
            assert(false);
        }
        assert(a =~= b);
    } else {
        let a0 = a[0];
        let b0 = b[0];
        assert(a.contains(a0));
        assert(b.contains(b0));
        assert(m.contains_key(a0));
        assert(m.contains_key(b0));
        assert(b.contains(a0));
        assert(a.contains(b0));
        let j = choose|j: int| 0 <= j < b.len() && b[j] == a0;
        let i = choose|i: int| 0 <= i < a.len() && a[i] == b0;
        if a0 != b0 {
            assert(j != 0 && i != 0);
            assert(addr_lt(b[0], b[j]));
            assert(addr_lt(a[0], a[i]));
            assert(false);
        }
        let m2 = m.remove(a0);
        let a2 = a.drop_first();
        let b2 = b.drop_first();
        assert forall|k: Addr| m2.contains_key(k) <==> a2.contains(k) by {
            if a2.contains(k) {
                let x = choose|x: int| 0 <= x < a2.len() && a2[x] == k;
                assert(a[x + 1] == k);
                assert(addr_lt(a[0], a[x + 1]));
                assert(a.contains(k));
            }
            if m2.contains_key(k) {
                assert(a.contains(k));
                let x = choose|x: int| 0 <= x < a.len() && a[x] == k;
                assert(x != 0);
                assert(a2[x - 1] == k);
            }
        }
        assert forall|k: Addr| m2.contains_key(k) <==> b2.contains(k) by {
            if b2.contains(k) {
                let x = choose|x: int| 0 <= x < b2.len() && b2[x] == k;
                assert(b[x + 1] == k);
                assert(addr_lt(b[0], b[x + 1]));
                assert(b.contains(k));
            }
            if m2.contains_key(k) {
                assert(b.contains(k));
                let x = choose|x: int| 0 <= x < b.len() && b[x] == k;
                assert(x != 0);
                assert(b2[x - 1] == k);
            }
        }
        assert forall|x: int, y: int| 0 <= x < y < a2.len() implies addr_lt(a2[x], a2[y]) by {
            assert(addr_lt(a[x + 1], a[y + 1]));
        }
        assert forall|x: int, y: int| 0 <= x < y < b2.len() implies addr_lt(b2[x], b2[y]) by {
            assert(addr_lt(b[x + 1], b[y + 1]));
        }
        lemma_key_order_unique(m2, a2, b2);
        assert(a =~= b) by {
            assert forall|x: int| 0 <= x < a.len() implies a[x] == b[x] by {
                if x > 0 {
                    assert(a2[x - 1] == b2[x - 1]);
                }
            }
        }
    }
}

/// The ledger's order on addresses, or equality.
pub open spec fn addr_le(a: Addr, b: Addr) -> bool {
    a == b || addr_lt(a, b)
}

/// Every finite map keyed by addresses can list its keys in order, and the
/// list holds as many keys as the map.
pub proof fn lemma_key_order_exists<V>(m: Map<Addr, V>)
    requires
        m.dom().finite(),
    ensures
        is_key_order(m, key_order(m)),
        key_order(m).len() == m.dom().len(),
    decreases m.dom().len(),
{
    broadcast use vstd::set::group_set_axioms;

    if m.dom().len() == 0 {
        let ks = Seq::<Addr>::empty();
        assert forall|k: Addr| m.contains_key(k) <==> ks.contains(k) by {
            if m.contains_key(k) {
                assert(m.dom().contains(k));
                assert(false);
            }
        }
        assert(is_key_order(m, ks));
        lemma_key_order_unique(m, key_order(m), ks);
    } else {
        let r = |a: Addr, b: Addr| addr_le(a, b);
        assert(vstd::relations::total_ordering(r)) by {
            assert forall|x: Addr, y: Addr, z: Addr| #[trigger] r(x, y) && #[trigger] r(y, z) implies r(
                x,
                z,
            ) by {}
            assert forall|x: Addr, y: Addr| #[trigger] r(x, y) && #[trigger] r(y, x) implies x == y by {}
        }
        m.dom().find_unique_minimal_ensures(r);
        let min = m.dom().find_unique_minimal(r);
        let m2 = m.remove(min);
        assert(m2.dom() =~= m.dom().remove(min));
        lemma_key_order_exists(m2);
        let ks2 = key_order(m2);
        let ks = seq![min] + ks2;
        assert forall|i: int, j: int| 0 <= i < j < ks.len() implies addr_lt(ks[i], ks[j]) by {
            if i == 0 {
                let x = ks2[j - 1];
                assert(ks[j] == x);
                assert(ks[0] == min);
                assert(ks2.contains(x));
                assert(m2.contains_key(x));
                assert(x != min);
                assert(m.dom().contains(x));
                if r(x, min) {
                    assert(r(min, x));
                }
                assert(addr_lt(min, x));
            } else {
                assert(ks[i] == ks2[i - 1] && ks[j] == ks2[j - 1]);
            }
        }
        assert forall|k: Addr| m.contains_key(k) <==> ks.contains(k) by {
            if m.contains_key(k) && k != min {
                assert(m2.contains_key(k));
                assert(ks2.contains(k));
                let x = choose|x: int| 0 <= x < ks2.len() && ks2[x] == k;
                assert(ks[x + 1] == k);
            }
            if m.contains_key(k) && k == min {
                assert(ks[0] == k);
            }
            if ks.contains(k) {
                let x = choose|x: int| 0 <= x < ks.len() && ks[x] == k;
                if x > 0 {
                    assert(ks2[x - 1] == k);
                    assert(ks2.contains(k));
                }
            }
        }
        assert(is_key_order(m, ks));
        lemma_key_order_unique(m, key_order(m), ks);
    }
}

/// A map keyed by addresses that keeps its entries in the ledger's order on
/// addresses, as the ledger keeps a map stored under a contract's key.
#[verifier::reject_recursive_types(V)]
pub struct AddrMap<V> {
    entries: Vec<(Addr, V)>,
}

impl<V> AddrMap<V> {
    #[verifier::type_invariant]
    spec fn sorted(self) -> bool {
        entries_sorted(self.entries@)
    }
}

impl<V> View for AddrMap<V> {
    type V = Map<Addr, V>;

    closed spec fn view(&self) -> Map<Addr, V> {
        entries_map(self.entries@)
    }
}

impl<V: Copy> AddrMap<V> {
    /// The empty map.
    pub fn new() -> (r: Self)
        ensures
            r@ == Map::<Addr, V>::empty(),
    {
        let r = AddrMap { entries: Vec::new() };
        assert(r@ =~= Map::<Addr, V>::empty());
        r
    }

    /// The value stored under `k`, if any.
    pub fn get(&self, k: &Addr) -> (r: Option<V>)
        ensures
            r == (if self@.contains_key(*k) {
                Some(self@[*k])
            } else {
                None::<V>
            }),
    {
        proof {
            use_type_invariant(self);
        }
        let mut i: usize = 0;
        while i < self.entries.len()
            invariant
                entries_sorted(self.entries@),
                i <= self.entries.len(),
                forall|j: int| 0 <= j < i ==> self.entries@[j].0 != *k,
            decreases self.entries.len() - i,
        {
            if self.entries[i].0 == *k {
                proof {
                    lemma_entries_lookup(self.entries@, i as int);
                }
                return Some(self.entries[i].1);
            }
            i = i + 1;
        }
        None
    }

    /// Whether a value is stored under `k`.
    pub fn contains_key(&self, k: &Addr) -> (r: bool)
        ensures
            r == self@.contains_key(*k),
    {
        self.get(k).is_some()
    }

    /// Stores `v` under `k`, in place of any value stored there before.
    pub fn insert(&mut self, k: Addr, v: V)
        ensures
            final(self)@ == old(self)@.insert(k, v),
    {
        proof {
            use_type_invariant(&*self);
        }
        let mut entries: Vec<(Addr, V)> = Vec::new();
        std::mem::swap(&mut entries, &mut self.entries);
        let ghost s = entries@;
        assert(s == old(self).entries@);
        let mut pos: usize = 0;
        while pos < entries.len() && entries[pos].0.less_than(&k)
            invariant
                entries@ == s,
                entries_sorted(s),
                pos <= s.len(),
                forall|j: int| 0 <= j < pos ==> addr_lt(#[trigger] s[j].0, k),
            decreases s.len() - pos,
        {
            pos = pos + 1;
        }
        if pos < entries.len() && entries[pos].0 == k {
            entries.set(pos, (k, v));
            let ghost t = entries@;
            assert(entries_sorted(t)) by {
                assert forall|i: int, j: int| 0 <= i < j < t.len() implies addr_lt(
                    t[i].0,
                    t[j].0,
                ) by {
                    assert(addr_lt(s[i].0, s[j].0));
                }
            }
            assert(entries_map(t) =~= entries_map(s).insert(k, v)) by {
                lemma_entries_lookup(t, pos as int);
                assert forall|x: Addr| #[trigger]
                    entries_map(t).contains_key(x) == entries_map(s).insert(k, v).contains_key(x)
                    by {
                    if entries_map(t).contains_key(x) {
                        let i = choose|i: int| 0 <= i < t.len() && t[i].0 == x;
                        assert(s[i].0 == x);
                    }
                    if entries_map(s).contains_key(x) {
                        let i = choose|i: int| 0 <= i < s.len() && s[i].0 == x;
                        assert(t[i].0 == x);
                    }
                }
                assert forall|x: Addr| #[trigger]
                    entries_map(t).contains_key(x) implies entries_map(t)[x] == entries_map(
                    s,
                ).insert(k, v)[x] by {
                    if x != k {
                        let i = choose|i: int| 0 <= i < t.len() && t[i].0 == x;
                        lemma_entries_lookup(t, i);
                        lemma_entries_lookup(s, i);
                    }
                }
            }
        } else {
            entries.insert(pos, (k, v));
            let ghost t = entries@;
            assert(t == s.insert(pos as int, (k, v)));
            proof {
                s.insert_ensures(pos as int, (k, v));
            }
            assert(entries_sorted(t)) by {
                assert forall|i: int, j: int| 0 <= i < j < t.len() implies addr_lt(
                    t[i].0,
                    t[j].0,
                ) by {
                    if j < pos {
                        assert(addr_lt(s[i].0, s[j].0));
                    } else if j == pos {
                        assert(addr_lt(s[i].0, k));
                    } else if i == pos {
                        assert(!addr_lt(s[pos as int].0, k));
                        assert(s[pos as int].0 != k);
                        if j - 1 > pos {
                            assert(addr_lt(s[pos as int].0, s[j - 1].0));
                        }
                        assert(t[j] == s[j - 1]);
                    } else if i < pos {
                        assert(addr_lt(s[i].0, k));
                        assert(!addr_lt(s[pos as int].0, k));
                        if j - 1 > pos {
                            assert(addr_lt(s[pos as int].0, s[j - 1].0));
                        }
                        assert(t[j] == s[j - 1]);
                    } else {
                        assert(addr_lt(s[i - 1].0, s[j - 1].0));
                        assert(t[j] == s[j - 1]);
                        assert(t[i] == s[i - 1]);
                    }
                }
            }
            assert(entries_map(t) =~= entries_map(s).insert(k, v)) by {
                assert(t[pos as int] == (k, v));
                lemma_entries_lookup(t, pos as int);
                assert forall|x: Addr| #[trigger]
                    entries_map(t).contains_key(x) == entries_map(s).insert(k, v).contains_key(x)
                    by {
                    if entries_map(t).contains_key(x) && x != k {
                        let i = choose|i: int| 0 <= i < t.len() && t[i].0 == x;
                        if i < pos {
                            assert(s[i].0 == x);
                        } else {
                            assert(i != pos);
                            assert(s[i - 1].0 == x);
                        }
                    }
                    if entries_map(s).contains_key(x) {
                        let i = choose|i: int| 0 <= i < s.len() && s[i].0 == x;
                        if i < pos {
                            assert(t[i].0 == x);
                        } else {
                            assert(t[i + 1].0 == x);
                        }
                    }
                }
                assert forall|x: Addr| #[trigger]
                    entries_map(t).contains_key(x) implies entries_map(t)[x] == entries_map(
                    s,
                ).insert(k, v)[x] by {
                    if x != k {
                        let i = choose|i: int| 0 <= i < t.len() && t[i].0 == x;
                        lemma_entries_lookup(t, i);
                        if i < pos {
                            lemma_entries_lookup(s, i);
                        } else {
                            assert(i != pos);
                            assert(t[i] == s[i - 1]);
                            lemma_entries_lookup(s, i - 1);
                        }
                    }
                }
            }
        }
        self.entries = entries;
    }

    /// The keys, in the ledger's order on addresses.
    pub fn keys(&self) -> (r: Vec<Addr>)
        ensures
            is_key_order(self@, r@),
            r@ == key_order(self@),
    {
        proof {
            use_type_invariant(self);
            lemma_entries_key_order(self.entries@);
        }
        let mut r: Vec<Addr> = Vec::new();
        let mut i: usize = 0;
        while i < self.entries.len()
            invariant
                i <= self.entries.len(),
                r@ == self.entries@.map_values(|e: (Addr, V)| e.0).take(i as int),
            decreases self.entries.len() - i,
        {
            r.push(self.entries[i].0);
            i = i + 1;
            assert(r@ =~= self.entries@.map_values(|e: (Addr, V)| e.0).take(i as int));
        }
        assert(r@ =~= self.entries@.map_values(|e: (Addr, V)| e.0));
        r
    }

    /// The values, in the order of their keys.
    pub fn values(&self) -> (r: Vec<V>)
        ensures
            r@ == values_in_key_order(self@),
    {
        proof {
            use_type_invariant(self);
            lemma_entries_key_order(self.entries@);
        }
        let ghost s = self.entries@;
        let ghost want = values_in_key_order(self@);
        assert forall|j: int| 0 <= j < s.len() implies #[trigger] want[j] == s[j].1 by {
            lemma_entries_lookup(s, j);
        }
        let mut r: Vec<V> = Vec::new();
        let mut i: usize = 0;
        while i < self.entries.len()
            invariant
                s == self.entries@,
                want.len() == s.len(),
                forall|j: int| 0 <= j < s.len() ==> #[trigger] want[j] == s[j].1,
                i <= s.len(),
                r@ == want.take(i as int),
            decreases s.len() - i,
        {
            r.push(self.entries[i].1);
            i = i + 1;
            assert(r@ =~= want.take(i as int));
        }
        assert(r@ =~= want);
        r
    }

    /// The number of entries.
    pub fn len(&self) -> (r: usize)
        ensures
            r == key_order(self@).len(),
    {
        proof {
            use_type_invariant(self);
            lemma_entries_key_order(self.entries@);
        }
        self.entries.len()
    }
}

} // verus!
