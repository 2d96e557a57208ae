//! Addresses, and a small map keyed by them.
use vstd::prelude::*;

verus! {

/// What an address belongs to: an account (`G...`) or a contract (`C...`).
#[derive(Clone, Copy, Debug, PartialEq, Eq, Hash, Structural)]
pub enum AddressKind {
    Account,
    Contract,
}

/// An account or contract address, held as its kind and its 32-byte payload
/// (the Ed25519 public key of an account, the hash of a contract), split into
/// two big-endian halves.
#[derive(Clone, Copy, Debug, PartialEq, Eq, Hash, Structural)]
pub struct Address {
    pub kind: AddressKind,
    pub hi: u128,
    pub lo: u128,
}

/// Whether two addresses are the same.
pub fn same_address(a: &Address, b: &Address) -> (r: bool)
    ensures
        r == (*a == *b),
{
    let same_kind = match (a.kind, b.kind) {
        (AddressKind::Account, AddressKind::Account) => true,
        (AddressKind::Contract, AddressKind::Contract) => true,
        _ => false,
    };
    same_kind && a.hi == b.hi && a.lo == b.lo
}

/// Whether `opt` holds exactly `a`.
pub fn is_some_address(opt: &Option<Address>, a: &Address) -> (r: bool)
    ensures
        r == (*opt == Some(*a)),
{
    match opt {
        Some(x) => same_address(x, a),
        None => false,
    }
}

/// A finite map from addresses to values, kept as a list of entries in
/// which no address occurs twice.
#[derive(Clone, Debug)]
pub struct AddressMap<V> {
    entries: Vec<(Address, V)>,
}

/// No address occurs twice among the entries.
pub open spec fn keys_distinct<V>(s: Seq<(Address, V)>) -> bool {
    forall|i: int, j: int| 0 <= i < j < s.len() ==> (#[trigger] s[i]).0 != (#[trigger] s[j]).0
}

/// Whether some entry has key `k`.
pub open spec fn has_key<V>(s: Seq<(Address, V)>, k: Address) -> bool {
    exists|i: int| 0 <= i < s.len() && (#[trigger] s[i]).0 == k
}

/// The map that a list of entries stands for.
pub open spec fn entries_map<V>(s: Seq<(Address, V)>) -> Map<Address, V> {
    Map::new(
        |k: Address| has_key(s, k),
        |k: Address| s[choose|i: int| 0 <= i < s.len() && (#[trigger] s[i]).0 == k].1,
    )
}

/// In a list without repeated keys, the map sends each entry's key to its value.
pub proof fn lemma_entries_map_at<V>(s: Seq<(Address, V)>, i: int)
    requires
        keys_distinct(s),
        0 <= i < s.len(),
    ensures
        entries_map(s).contains_key(s[i].0),
        entries_map(s)[s[i].0] == s[i].1,
{
    assert(has_key(s, s[i].0));
    let j = choose|j: int| 0 <= j < s.len() && (#[trigger] s[j]).0 == s[i].0;
    if j != i {
        if j < i {
            assert(s[j].0 != s[i].0);
        } else {
            assert(s[i].0 != s[j].0);
        }
    }
}

impl<V> View for AddressMap<V> {
    type V = Map<Address, V>;

    closed spec fn view(&self) -> Map<Address, V> {
        entries_map(self.entries@)
    }
}

impl<V> AddressMap<V> {
    /// The map is well formed: no address occurs twice.
    pub closed spec fn wf(&self) -> bool {
        keys_distinct(self.entries@)
    }

    /// The map has finitely many keys: each is the key of one of its entries.
    pub proof fn lemma_finite(&self)
        ensures
            self@.dom().finite(),
    {
        let keys = self.entries@.map_values(|e: (Address, V)| e.0).to_set();
        vstd::seq_lib::seq_to_set_is_finite(self.entries@.map_values(|e: (Address, V)| e.0));
        assert forall|k: Address| #[trigger] self@.dom().contains(k) implies keys.contains(k) by {
            let i = choose|i: int| 0 <= i < self.entries@.len() && (#[trigger] self.entries@[i]).0 == k;
            assert(self.entries@.map_values(|e: (Address, V)| e.0)[i] == k);
        }
        vstd::set_lib::lemma_set_subset_finite(keys, self@.dom());
    }

    /// An empty map.
    pub fn new() -> (m: Self)
        ensures
            m.wf(),
            m@ == Map::<Address, V>::empty(),
    {
        let m = AddressMap { entries: Vec::new() };
        assert(m@ =~= Map::<Address, V>::empty());
        m
    }

    /// Index of the entry with key `k`, if any.
    fn find(&self, k: &Address) -> (r: Option<usize>)
        requires
            self.wf(),
        ensures
            match r {
                Some(i) => i < self.entries@.len() && self.entries@[i as int].0 == *k,
                None => !self@.contains_key(*k),
            },
    {
        let mut i: usize = 0;
        while i < self.entries.len()
            invariant
                i <= self.entries@.len(),
                forall|j: int| 0 <= j < i ==> (#[trigger] self.entries@[j]).0 != *k,
            decreases self.entries@.len() - i,
        {
            if same_address(&self.entries[i].0, k) {
                return Some(i);
            }
            i = i + 1;
        }
        None
    }

    /// The value stored under `k`.
    pub fn get(&self, k: &Address) -> (r: Option<&V>)
        requires
            self.wf(),
        ensures
            match r {
                Some(v) => self@.contains_key(*k) && self@[*k] == *v,
                None => !self@.contains_key(*k),
            },
    {
        match self.find(k) {
            Some(i) => {
                proof {
                    lemma_entries_map_at(self.entries@, i as int);
                }
                Some(&self.entries[i].1)
            },
            None => None,
        }
    }

    /// Stores `v` under `k`, replacing what was there.
    pub fn insert(&mut self, k: Address, v: V)
        requires
            old(self).wf(),
        ensures
            final(self).wf(),
            final(self)@ == old(self)@.insert(k, v),
    {
        let ghost s0 = self.entries@;
        match self.find(&k) {
            Some(i) => {
                self.entries.set(i, (k, v));
                let ghost s1 = self.entries@;
                assert(s1 == s0.update(i as int, (k, v)));
                assert(keys_distinct(s1)) by {
                    assert forall|a: int, b: int| 0 <= a < b < s1.len() implies (
                    #[trigger] s1[a]).0 != (#[trigger] s1[b]).0 by {
                        assert(s0[a].0 != s0[b].0);
                    }
                }
                assert(self@ =~= entries_map(s0).insert(k, v)) by {
                    assert forall|x: Address| #[trigger] entries_map(s1).contains_key(x) <==> entries_map(s0).insert(k, v).contains_key(x) by {
                        if has_key(s1, x) {
                            let j = choose|j: int| 0 <= j < s1.len() && (#[trigger] s1[j]).0 == x;
                            if j != i {
                                assert(s0[j].0 == x);
                            }
                        }
                        if has_key(s0, x) {
                            let j = choose|j: int| 0 <= j < s0.len() && (#[trigger] s0[j]).0 == x;
                            if j != i {
                                assert(s1[j].0 == x);
                            } else {
                                assert(s1[j].0 == x);
                            }
                        }
                        if x == k {
                            assert(s1[i as int].0 == x);
                        }
                    }
                    assert forall|x: Address| #[trigger] entries_map(s1).contains_key(x) implies entries_map(s1)[x] == entries_map(s0).insert(k, v)[x] by {
                        let j = choose|j: int| 0 <= j < s1.len() && (#[trigger] s1[j]).0 == x;
                        lemma_entries_map_at(s1, j);
                        if j != i {
                            assert(s0[j] == s1[j]);
                            lemma_entries_map_at(s0, j);
                        }
                    }
                }
            },
            None => {
                self.entries.push((k, v));
                let ghost s1 = self.entries@;
                assert(s1 == s0.push((k, v)));
                assert(keys_distinct(s1)) by {
                    assert forall|a: int, b: int| 0 <= a < b < s1.len() implies (
                    #[trigger] s1[a]).0 != (#[trigger] s1[b]).0 by {
                        if b == s0.len() {
                            assert(s1[a] == s0[a]);
                            assert(has_key(s0, s0[a].0));
                        } else {
                            assert(s0[a].0 != s0[b].0);
                        }
                    }
                }
                assert(self@ =~= entries_map(s0).insert(k, v)) by {
                    assert forall|x: Address| #[trigger] entries_map(s1).contains_key(x) <==> entries_map(s0).insert(k, v).contains_key(x) by {
                        if has_key(s1, x) {
                            let j = choose|j: int| 0 <= j < s1.len() && (#[trigger] s1[j]).0 == x;
                            if j < s0.len() {
                                assert(s0[j].0 == x);
                            }
                        }
                        if has_key(s0, x) {
                            let j = choose|j: int| 0 <= j < s0.len() && (#[trigger] s0[j]).0 == x;
                            assert(s1[j].0 == x);
                        }
                        if x == k {
                            assert(s1[s0.len() as int].0 == x);
                        }
                    }
                    assert forall|x: Address| #[trigger] entries_map(s1).contains_key(x) implies entries_map(s1)[x] == entries_map(s0).insert(k, v)[x] by {
                        let j = choose|j: int| 0 <= j < s1.len() && (#[trigger] s1[j]).0 == x;
                        lemma_entries_map_at(s1, j);
                        if j < s0.len() {
                            assert(s0[j] == s1[j]);
                            lemma_entries_map_at(s0, j);
                        }
                    }
                }
            },
        }
    }

    /// Removes the entry under `k`, giving back its value.
    pub fn remove(&mut self, k: &Address) -> (r: Option<V>)
        requires
            old(self).wf(),
        ensures
            final(self).wf(),
            final(self)@ == old(self)@.remove(*k),
            match r {
                Some(v) => old(self)@.contains_key(*k) && old(self)@[*k] == v,
                None => !old(self)@.contains_key(*k),
            },
    {
        let ghost s0 = self.entries@;
        match self.find(k) {
            Some(i) => {
                proof {
                    lemma_entries_map_at(s0, i as int);
                }
                let entry = self.entries.remove(i);
                let ghost s1 = self.entries@;
                assert(s1 == s0.remove(i as int));
                assert(keys_distinct(s1)) by {
                    assert forall|a: int, b: int| 0 <= a < b < s1.len() implies (
                    #[trigger] s1[a]).0 != (#[trigger] s1[b]).0 by {
                        let a0 = if a < i { a } else { a + 1 };
                        let b0 = if b < i { b } else { b + 1 };
                        assert(s1[a] == s0[a0]);
                        assert(s1[b] == s0[b0]);
                        assert(s0[a0].0 != s0[b0].0);
                    }
                }
                assert(self@ =~= entries_map(s0).remove(*k)) by {
                    assert forall|x: Address| #[trigger] entries_map(s1).contains_key(x) <==> entries_map(s0).remove(*k).contains_key(x) by {
                        if has_key(s1, x) {
                            let j = choose|j: int| 0 <= j < s1.len() && (#[trigger] s1[j]).0 == x;
                            let j0 = if j < i { j } else { j + 1 };
                            assert(s1[j] == s0[j0]);
                            assert(s0[j0].0 != s0[i as int].0);
                        }
                        if has_key(s0, x) && x != *k {
                            let j = choose|j: int| 0 <= j < s0.len() && (#[trigger] s0[j]).0 == x;
                            assert(j != i);
                            let j1 = if j < i { j } else { j - 1 };
                            assert(s1[j1] == s0[j]);
                        }
                    }
                    assert forall|x: Address| #[trigger] entries_map(s1).contains_key(x) implies entries_map(s1)[x] == entries_map(s0).remove(*k)[x] by {
                        let j = choose|j: int| 0 <= j < s1.len() && (#[trigger] s1[j]).0 == x;
                        lemma_entries_map_at(s1, j);
                        let j0 = if j < i { j } else { j + 1 };
                        assert(s1[j] == s0[j0]);
                        lemma_entries_map_at(s0, j0);
                    }
                }
                Some(entry.1)
            },
            None => {
                assert(self@ =~= entries_map(s0).remove(*k));
                None
            },
        }
    }
}

} // verus!
