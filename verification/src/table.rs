//! A verified association table from `u128` keys to values.
//!
//! Every contract in this crate keeps its records in the host's
//! persistent key-value store.  `Table` is the in-memory model of one
//! such store: a vector of key/value pairs with unique keys, together
//! with the sequence lemmas the state machines need to reason about
//! lookups and about sums of weights over all stored records.

use vstd::prelude::*;

verus! {

/// The value stored under key `k` in a sequence of key/value pairs,
/// reading the earliest matching pair.
pub open spec fn seq_get<V>(s: Seq<(u128, V)>, k: u128) -> Option<V>
    decreases s.len(),
{
    if s.len() == 0 {
        None
    } else if s[0].0 == k {
        Some(s[0].1)
    } else {
        seq_get(s.drop_first(), k)
    }
}

/// No key appears in two different pairs.
pub open spec fn unique_keys<V>(s: Seq<(u128, V)>) -> bool {
    forall|i: int, j: int| 0 <= i < j < s.len() ==> s[i].0 != s[j].0
}

/// The sum of `weight` over all pairs of `s`.
pub open spec fn seq_sum<V>(s: Seq<(u128, V)>, weight: spec_fn((u128, V)) -> int) -> int
    decreases s.len(),
{
    if s.len() == 0 {
        0
    } else {
        weight(s[0]) + seq_sum(s.drop_first(), weight)
    }
}

/// Dropping the first pair of a sequence with unique keys leaves the
/// keys unique.
proof fn lemma_unique_drop_first<V>(s: Seq<(u128, V)>)
    requires
        s.len() > 0,
        unique_keys(s),
    ensures
        unique_keys(s.drop_first()),
{
    assert forall|i: int, j: int|
        0 <= i < j < s.drop_first().len() implies s.drop_first()[i].0 != s.drop_first()[j].0 by {
        assert(s.drop_first()[i] == s[i + 1]);
        assert(s.drop_first()[j] == s[j + 1]);
    }
}

/// Under unique keys, `seq_get` is fully characterized by the indices
/// of `s`: it is `None` exactly when no pair carries the key, and it
/// returns the value of whichever pair does.
pub proof fn lemma_seq_get_index<V>(s: Seq<(u128, V)>, k: u128)
    requires
        unique_keys(s),
    ensures
        (seq_get(s, k) is None) <==> (forall|i: int| 0 <= i < s.len() ==> s[i].0 != k),
        forall|i: int| 0 <= i < s.len() && s[i].0 == k ==> seq_get(s, k) == Some(s[i].1),
    decreases s.len(),
{
    if s.len() > 0 {
        lemma_unique_drop_first(s);
        lemma_seq_get_index(s.drop_first(), k);
        assert forall|i: int| 1 <= i < s.len() implies s.drop_first()[i - 1] == s[i] by {}
        if s[0].0 == k {
            assert(seq_get(s, k) == Some(s[0].1));
        }
    }
}

/// Appending a pair adds its weight to the sum.
pub proof fn lemma_seq_sum_push<V>(
    s: Seq<(u128, V)>,
    p: (u128, V),
    weight: spec_fn((u128, V)) -> int,
)
    ensures
        seq_sum(s.push(p), weight) == seq_sum(s, weight) + weight(p),
    decreases s.len(),
{
    if s.len() == 0 {
        assert(s.push(p)[0] == p);
        assert(s.push(p).drop_first() =~= Seq::<(u128, V)>::empty());
        assert(seq_sum(Seq::<(u128, V)>::empty(), weight) == 0);
        assert(seq_sum(s.push(p), weight) == weight(p) + seq_sum(s.push(p).drop_first(), weight));
    } else {
        assert(s.push(p)[0] == s[0]);
        assert(s.push(p).drop_first() =~= s.drop_first().push(p));
        lemma_seq_sum_push(s.drop_first(), p, weight);
        assert(seq_sum(s.push(p), weight) == weight(s[0]) + seq_sum(
            s.push(p).drop_first(),
            weight,
        ));
        assert(seq_sum(s, weight) == weight(s[0]) + seq_sum(s.drop_first(), weight));
    }
}

/// Replacing the pair at index `i` adjusts the sum by the difference of
/// the two weights.
pub proof fn lemma_seq_sum_update<V>(
    s: Seq<(u128, V)>,
    i: int,
    p: (u128, V),
    weight: spec_fn((u128, V)) -> int,
)
    requires
        0 <= i < s.len(),
    ensures
        seq_sum(s.update(i, p), weight) == seq_sum(s, weight) - weight(s[i]) + weight(p),
    decreases s.len(),
{
    if i == 0 {
        assert(s.update(0, p)[0] == p);
        assert(s.update(0, p).drop_first() =~= s.drop_first());
    } else {
        assert(s.update(i, p)[0] == s[0]);
        assert(s.update(i, p).drop_first() =~= s.drop_first().update(i - 1, p));
        assert(s.drop_first()[i - 1] == s[i]);
        lemma_seq_sum_update(s.drop_first(), i - 1, p, weight);
    }
}

/// Summing a pointwise sum of two weights equals the sum of the two
/// individual sums.
pub proof fn lemma_seq_sum_split<V>(
    s: Seq<(u128, V)>,
    wa: spec_fn((u128, V)) -> int,
    wb: spec_fn((u128, V)) -> int,
    wc: spec_fn((u128, V)) -> int,
)
    requires
        forall|i: int| 0 <= i < s.len() ==> wc(#[trigger] s[i]) == wa(s[i]) + wb(s[i]),
    ensures
        seq_sum(s, wc) == seq_sum(s, wa) + seq_sum(s, wb),
    decreases s.len(),
{
    if s.len() > 0 {
        assert forall|i: int| 0 <= i < s.drop_first().len() implies
            wc(#[trigger] s.drop_first()[i]) == wa(s.drop_first()[i]) + wb(s.drop_first()[i]) by {
            assert(s.drop_first()[i] == s[i + 1]);
        }
        lemma_seq_sum_split(s.drop_first(), wa, wb, wc);
    }
}

/// An association table with unique `u128` keys, the model of one
/// persistent key-value store.  Entries are inserted and updated but
/// never removed: every stored record of these contracts is a permanent
/// receipt.
pub struct Table<V> {
    pairs: Vec<(u128, V)>,
}

impl<V> Table<V> {
    /// The stored pairs, in insertion order.
    pub closed spec fn entries(self) -> Seq<(u128, V)> {
        self.pairs@
    }

    /// The value stored under `k`, if any.
    pub closed spec fn spec_get(self, k: u128) -> Option<V> {
        seq_get(self.pairs@, k)
    }

    /// Well-formed: no key is stored twice.
    pub closed spec fn wf(self) -> bool {
        unique_keys(self.pairs@)
    }

    /// Exports the characterization of `spec_get` over `entries` to
    /// callers that reason about sums over all stored pairs.
    pub proof fn lemma_get_entries(self, k: u128)
        requires
            self.wf(),
        ensures
            (self.spec_get(k) is None) <==> (forall|i: int|
                0 <= i < self.entries().len() ==> self.entries()[i].0 != k),
            forall|i: int|
                0 <= i < self.entries().len() && self.entries()[i].0 == k
                    ==> self.spec_get(k) == Some(self.entries()[i].1),
    {
        assert(self.entries() == self.pairs@);
        lemma_seq_get_index(self.pairs@, k);
    }

    /// An empty table.
    pub fn new() -> (t: Table<V>)
        ensures
            t.wf(),
            forall|k: u128| t.spec_get(k) is None,
            t.entries() == Seq::<(u128, V)>::empty(),
    {
        Table { pairs: Vec::new() }
    }

    /// The number of stored pairs.
    pub fn len(&self) -> (n: usize)
        ensures
            n == self.entries().len(),
    {
        self.pairs.len()
    }

    /// The pair stored at position `i`.
    pub fn entry_at(&self, i: usize) -> (p: &(u128, V))
        requires
            i < self.entries().len(),
        ensures
            *p == self.entries()[i as int],
    {
        &self.pairs[i]
    }

    /// A reference to the value stored under `k`, if any.
    #[verifier::loop_isolation(false)]
    pub fn get(&self, k: u128) -> (r: Option<&V>)
        requires
            self.wf(),
        ensures
            match r {
                Some(v) => self.spec_get(k) == Some(*v),
                None => self.spec_get(k) is None,
            },
    {
        proof {
            lemma_seq_get_index(self.pairs@, k);
        }
        let n: usize = self.pairs.len();
        let mut i: usize = 0;
        while i < n
            invariant
                forall|j: int| 0 <= j < i ==> self.pairs@[j].0 != k,
            decreases n - i,
        {
            if self.pairs[i].0 == k {
                return Some(&self.pairs[i].1);
            }
            i = i + 1;
        }
        None
    }

    /// Whether some value is stored under `k`.
    pub fn contains(&self, k: u128) -> (r: bool)
        requires
            self.wf(),
        ensures
            r == (self.spec_get(k) is Some),
    {
        match self.get(k) {
            Some(_) => true,
            None => false,
        }
    }

    /// Removes and returns the value stored under `k`, if any: the way
    /// a caller borrows a record by value, edits it, and `put`s it
    /// back.  Taking may reorder the remaining entries, so this
    /// contract speaks only of `spec_get`; sums over `entries` are
    /// stated for `put` alone.
    #[verifier::loop_isolation(false)]
    pub fn take(&mut self, k: u128) -> (r: Option<V>)
        requires
            old(self).wf(),
        ensures
            final(self).wf(),
            final(self).spec_get(k) is None,
            r == old(self).spec_get(k),
            forall|k2: u128| k2 != k ==> final(self).spec_get(k2) == old(self).spec_get(k2),
    {
        proof {
            lemma_seq_get_index(old(self).pairs@, k);
        }
        let n: usize = self.pairs.len();
        let mut i: usize = 0;
        while i < n
            invariant
                self.pairs@ == old(self).pairs@,
                forall|j: int| 0 <= j < i ==> self.pairs@[j].0 != k,
            decreases n - i,
        {
            if self.pairs[i].0 == k {
                let p = self.pairs.swap_remove(i);
                proof {
                    let s0 = old(self).pairs@;
                    let s1 = self.pairs@;
                    assert(s1 == s0.update(i as int, s0.last()).drop_last());
                    assert(s0[i as int].0 == k);
                    assert forall|j: int| 0 <= j < s1.len() implies s1[j] == (if j == i {
                        s0[s0.len() - 1]
                    } else {
                        s0[j]
                    }) by {}
                    assert forall|a: int, b: int| 0 <= a < b < s1.len() implies
                        s1[a].0 != s1[b].0 by {
                        if a == i {
                            assert(s1[a] == s0[s0.len() - 1]);
                            assert(s1[b] == s0[b]);
                        } else if b == i {
                            assert(s1[b] == s0[s0.len() - 1]);
                            assert(s1[a] == s0[a]);
                        } else {
                            assert(s0[a].0 != s0[b].0);
                        }
                    }
                    lemma_seq_get_index(s1, k);
                    assert forall|j: int| 0 <= j < s1.len() implies s1[j].0 != k by {
                        if j == i {
                            assert(s1[j] == s0[s0.len() - 1]);
                        }
                    }
                    assert forall|k2: u128| k2 != k implies
                        seq_get(s1, k2) == seq_get(s0, k2) by {
                        lemma_seq_get_index(s0, k2);
                        lemma_seq_get_index(s1, k2);
                        if seq_get(s0, k2) is Some {
                            let j = choose|j: int| 0 <= j < s0.len() && (#[trigger] s0[j]).0 == k2;
                            if j < s0.len() - 1 {
                                assert(s1[j] == s0[j]);
                            } else {
                                assert(i < s0.len() - 1);
                                assert(s1[i as int] == s0[j]);
                            }
                        }
                    }
                }
                return Some(p.1);
            }
            i = i + 1;
        }
        None
    }

    /// Stores `v` under `k`, replacing any previous value.
    #[verifier::loop_isolation(false)]
    pub fn put(&mut self, k: u128, v: V)
        requires
            old(self).wf(),
        ensures
            final(self).wf(),
            final(self).spec_get(k) == Some(v),
            forall|k2: u128| k2 != k ==> final(self).spec_get(k2) == old(self).spec_get(k2),
            old(self).spec_get(k) is None ==> final(self).entries() == old(self).entries().push(
                (k, v),
            ),
            old(self).spec_get(k) is Some ==> exists|i: int|
                0 <= i < old(self).entries().len() && #[trigger] old(self).entries()[i].0 == k
                    && final(self).entries() == old(self).entries().update(i, (k, v)),
    {
        proof {
            lemma_seq_get_index(old(self).pairs@, k);
        }
        let n: usize = self.pairs.len();
        let mut i: usize = 0;
        while i < n
            invariant
                self.pairs@ == old(self).pairs@,
                forall|j: int| 0 <= j < i ==> self.pairs@[j].0 != k,
            decreases n - i,
        {
            if self.pairs[i].0 == k {
                self.pairs.set(i, (k, v));
                proof {
                    let s0 = old(self).pairs@;
                    let s1 = self.pairs@;
                    assert(old(self).entries() == s0);
                    assert(self.entries() == s1);
                    assert(s1 == s0.update(i as int, (k, v)));
                    assert(s0[i as int].0 == k);
                    assert forall|a: int, b: int| 0 <= a < b < s1.len() implies
                        s1[a].0 != s1[b].0 by {
                        assert(s0[a].0 != s0[b].0);
                    }
                    lemma_seq_get_index(s1, k);
                    assert(s1[i as int].0 == k);
                    assert forall|k2: u128| k2 != k implies
                        seq_get(s1, k2) == seq_get(s0, k2) by {
                        lemma_seq_get_index(s0, k2);
                        lemma_seq_get_index(s1, k2);
                        if seq_get(s0, k2) is Some {
                            let j = choose|j: int| 0 <= j < s0.len() && (#[trigger] s0[j]).0 == k2;
                            assert(s1[j] == s0[j]);
                        }
                    }
                }
                return;
            }
            i = i + 1;
        }
        self.pairs.push((k, v));
        proof {
            let s0 = old(self).pairs@;
            let s1 = self.pairs@;
            assert(old(self).entries() == s0);
            assert(self.entries() == s1);
            assert(s1 == s0.push((k, v)));
            assert forall|a: int, b: int| 0 <= a < b < s1.len() implies s1[a].0 != s1[b].0 by {
                if b < s0.len() {
                    assert(s0[a].0 != s0[b].0);
                } else {
                    assert(s1[b] == (k, v));
                    assert(s1[a] == s0[a]);
                }
            }
            lemma_seq_get_index(s1, k);
            assert(s1[s0.len() as int].0 == k);
            assert forall|k2: u128| k2 != k implies seq_get(s1, k2) == seq_get(s0, k2) by {
                lemma_seq_get_index(s0, k2);
                lemma_seq_get_index(s1, k2);
                if seq_get(s0, k2) is Some {
                    let j = choose|j: int| 0 <= j < s0.len() && (#[trigger] s0[j]).0 == k2;
                    assert(s1[j] == s0[j]);
                }
            }
        }
    }
}

} // verus!
