//! A table keyed by peer.

use crate::outside::peer_id_eq;
use libp2p::PeerId;
use vstd::prelude::*;

verus! {

/// No peer has two entries in `s`.
pub open spec fn distinct_keys<V>(s: Seq<(PeerId, V)>) -> bool {
    forall|i: int, j: int|
        0 <= i < s.len() && 0 <= j < s.len() && i != j ==> (#[trigger] s[i]).0 != (#[trigger] s[j]).0
}

/// `s` has an entry of `p`.
pub open spec fn has_key<V>(s: Seq<(PeerId, V)>, p: PeerId) -> bool {
    exists|i: int| 0 <= i < s.len() && (#[trigger] s[i]).0 == p
}

/// The place of the entry of `p` in `s`.
pub open spec fn key_at<V>(s: Seq<(PeerId, V)>, p: PeerId) -> int {
    choose|i: int| 0 <= i < s.len() && (#[trigger] s[i]).0 == p
}

/// The map that a list of entries stands for.
pub open spec fn as_map<V>(s: Seq<(PeerId, V)>) -> Map<PeerId, V> {
    Map::new(|p: PeerId| has_key(s, p), |p: PeerId| s[key_at(s, p)].1)
}

/// The map of a list of distinct entries holds, at the peer of each entry, the value of that entry.
pub proof fn lemma_entry<V>(s: Seq<(PeerId, V)>, i: int)
    requires
        distinct_keys(s),
        0 <= i < s.len(),
    ensures
        as_map(s).dom().contains(s[i].0),
        as_map(s)[s[i].0] == s[i].1,
{
    assert(has_key(s, s[i].0));
    let k = key_at(s, s[i].0);
    assert(0 <= k < s.len() && s[k].0 == s[i].0);
}

/// The domain of the map of a list of distinct entries has as many peers as the list is long.
pub proof fn lemma_len<V>(s: Seq<(PeerId, V)>)
    requires
        distinct_keys(s),
    ensures
        as_map(s).dom().finite(),
        as_map(s).dom().len() == s.len(),
    decreases s.len(),
{
    if s.len() == 0 {
        assert(as_map(s).dom() =~= Set::<PeerId>::empty());
    } else {
        let rest = s.drop_last();
        let p = s.last().0;
        lemma_len(rest);
        assert(as_map(s).dom() =~= as_map(rest).dom().insert(p)) by {
            assert forall|q: PeerId| has_key(s, q) <==> has_key(rest, q) || q == p by {
                if has_key(s, q) {
                    let i = key_at(s, q);
                    if i < rest.len() {
                        assert(rest[i].0 == q);
                    }
                }
                if has_key(rest, q) {
                    let i = key_at(rest, q);
                    assert(s[i].0 == q);
                }
                if q == p {
                    assert(s[s.len() - 1].0 == q);
                }
            }
        }
        assert(!as_map(rest).dom().contains(p)) by {
            if has_key(rest, p) {
                let i = key_at(rest, p);
                assert(s[i].0 == s[s.len() - 1].0);
            }
        }
    }
}

/// The peers of the first `n` entries of `s` that meet `pred`.
pub open spec fn picked<V>(s: Seq<(PeerId, V)>, n: int, pred: spec_fn(V) -> bool) -> Set<PeerId> {
    Set::new(|p: PeerId| exists|i: int| 0 <= i < n && (#[trigger] s[i]).0 == p && pred(s[i].1))
}

/// The peers of `m` whose values meet `pred`.
pub open spec fn peers_where<V>(m: Map<PeerId, V>, pred: spec_fn(V) -> bool) -> Set<PeerId> {
    Set::new(|p: PeerId| m.dom().contains(p) && pred(m[p]))
}

/// One more entry adds its peer to those picked if and only if it meets `pred`.
pub proof fn lemma_picked_step<V>(s: Seq<(PeerId, V)>, n: int, pred: spec_fn(V) -> bool)
    requires
        distinct_keys(s),
        0 <= n < s.len(),
    ensures
        picked(s, n + 1, pred) == (if pred(s[n].1) {
            picked(s, n, pred).insert(s[n].0)
        } else {
            picked(s, n, pred)
        }),
        !picked(s, n, pred).contains(s[n].0),
{
    let before = picked(s, n, pred);
    let after = picked(s, n + 1, pred);
    assert forall|p: PeerId| #[trigger] after.contains(p) <==> before.contains(p) || (pred(s[n].1) && p == s[n].0) by {
        if pred(s[n].1) && p == s[n].0 {
            assert(s[n].0 == p);
        }
    }
    assert(after =~= (if pred(s[n].1) { before.insert(s[n].0) } else { before }));
}

/// The peers picked from all the entries are those of the map that meet `pred`.
pub proof fn lemma_picked_all<V>(s: Seq<(PeerId, V)>, pred: spec_fn(V) -> bool)
    requires
        distinct_keys(s),
    ensures
        picked(s, s.len() as int, pred) == peers_where(as_map(s), pred),
{
    let all = picked(s, s.len() as int, pred);
    assert forall|p: PeerId| #[trigger] all.contains(p) <==> as_map(s).dom().contains(p) && pred(as_map(s)[p]) by {
        if all.contains(p) {
            let i = choose|i: int| 0 <= i < s.len() && (#[trigger] s[i]).0 == p && pred(s[i].1);
            lemma_entry(s, i);
        }
        if as_map(s).dom().contains(p) && pred(as_map(s)[p]) {
            let i = key_at(s, p);
            lemma_entry(s, i);
        }
    }
    assert(all =~= peers_where(as_map(s), pred));
}

/// Appending a peer that a list of distinct peers lacks keeps them distinct and adds it to their set.
pub proof fn lemma_push_fresh(ids: Seq<PeerId>, p: PeerId)
    requires
        ids.no_duplicates(),
        !ids.to_set().contains(p),
    ensures
        ids.push(p).no_duplicates(),
        ids.push(p).to_set() == ids.to_set().insert(p),
{
    let after = ids.push(p);
    assert forall|q: PeerId| #[trigger] after.to_set().contains(q) <==> ids.to_set().contains(q) || q == p by {
        if ids.contains(q) {
            let i = choose|i: int| 0 <= i < ids.len() && ids[i] == q;
            assert(after[i] == q);
        }
        if q == p {
            assert(after[ids.len() as int] == q);
        }
        if after.contains(q) {
            let i = choose|i: int| 0 <= i < after.len() && after[i] == q;
            if i < ids.len() {
                assert(ids[i] == q);
            }
        }
    }
    assert(after.to_set() =~= ids.to_set().insert(p));
    assert forall|i: int, j: int| 0 <= i < after.len() && 0 <= j < after.len() && i != j implies after[i]
        != after[j] by {
        if i == ids.len() {
            assert(ids.contains(ids[j]));
        }
        if j == ids.len() {
            assert(ids.contains(ids[i]));
        }
    }
}

/// A table that holds at most one value for each peer.
pub struct PeerMap<V> {
    entries: Vec<(PeerId, V)>,
}

impl<V> View for PeerMap<V> {
    type V = Map<PeerId, V>;

    closed spec fn view(&self) -> Map<PeerId, V> {
        as_map(self.entries@)
    }
}

impl<V> PeerMap<V> {
    #[verifier::type_invariant]
    spec fn inv(self) -> bool {
        distinct_keys(self.entries@)
    }

    /// An empty table.
    pub fn new() -> (m: Self)
        ensures
            m@ == Map::<PeerId, V>::empty(),
    {
        let m = PeerMap { entries: Vec::new() };
        assert(m@ =~= Map::<PeerId, V>::empty());
        m
    }

    /// How many peers the table holds.
    pub fn len(&self) -> (n: usize)
        ensures
            self@.dom().finite(),
            n == self@.dom().len(),
    {
        proof {
            use_type_invariant(self);
            lemma_len(self.entries@);
        }
        self.entries.len()
    }

    /// The entries of the table, each peer once.
    pub fn entries(&self) -> (s: &Vec<(PeerId, V)>)
        ensures
            distinct_keys(s@),
            as_map(s@) == self@,
    {
        proof {
            use_type_invariant(self);
        }
        &self.entries
    }

    /// The peers of the table, each once.
    pub fn keys(&self) -> (ids: Vec<PeerId>)
        ensures
            ids@.no_duplicates(),
            ids@.to_set() == self@.dom(),
    {
        proof {
            use_type_invariant(self);
        }
        let mut ids: Vec<PeerId> = Vec::new();
        for i in 0..self.entries.len()
            invariant
                ids.len() == i,
                forall|j: int| 0 <= j < i ==> ids[j] == (#[trigger] self.entries[j]).0,
        {
            ids.push(self.entries[i].0);
        }
        proof {
            let s = self.entries@;
            assert forall|p: PeerId| ids@.to_set().contains(p) <==> self@.dom().contains(p) by {
                if has_key(s, p) {
                    let i = key_at(s, p);
                    assert(ids[i] == s[i].0);
                }
                if ids@.contains(p) {
                    let i = choose|i: int| 0 <= i < ids.len() && ids[i] == p;
                    assert(s[i].0 == p);
                }
            }
            assert(ids@.to_set() =~= self@.dom());
            assert forall|i: int, j: int| 0 <= i < ids.len() && 0 <= j < ids.len() && i != j implies ids[i]
                != ids[j] by {
                assert(s[i].0 != s[j].0);
            }
        }
        ids
    }

    /// Where the entry of `p` stands, if there is one.
    fn find(&self, p: &PeerId) -> (r: Option<usize>)
        ensures
            r matches Some(i) ==> i < self.entries@.len() && self.entries@[i as int].0 == *p,
            r is None ==> !has_key(self.entries@, *p),
    {
        for i in 0..self.entries.len()
            invariant
                forall|j: int| 0 <= j < i ==> (#[trigger] self.entries[j]).0 != *p,
        {
            if peer_id_eq(&self.entries[i].0, p) {
                return Some(i);
            }
        }
        None
    }

    /// The value held for `p`.
    pub fn get(&self, p: &PeerId) -> (r: Option<&V>)
        ensures
            r == (if self@.dom().contains(*p) { Some(&self@[*p]) } else { None }),
    {
        proof {
            use_type_invariant(self);
        }
        match self.find(p) {
            Some(i) => {
                proof {
                    lemma_entry(self.entries@, i as int);
                }
                Some(&self.entries[i].1)
            },
            None => None,
        }
    }

    /// Holds `v` for `p` from now on.
    pub fn insert(&mut self, p: PeerId, v: V)
        ensures
            final(self)@ == old(self)@.insert(p, v),
    {
        proof {
            use_type_invariant(&*self);
        }
        let place = self.find(&p);
        let mut entries: Vec<(PeerId, V)> = Vec::new();
        std::mem::swap(&mut entries, &mut self.entries);
        let ghost before = entries@;
        match place {
            Some(i) => {
                entries.set(i, (p, v));
            },
            None => {
                entries.push((p, v));
            },
        }
        proof {
            let after = entries@;
            let k = match place {
                Some(i) => i as int,
                None => before.len() as int,
            };
            assert(after[k] == (p, v));
            assert(forall|i: int| 0 <= i < before.len() && i != k ==> #[trigger] after[i] == before[i]);
            assert forall|i: int, j: int| 0 <= i < after.len() && 0 <= j < after.len() && i != j implies (
            #[trigger] after[i]).0 != (#[trigger] after[j]).0 by {
                if i < before.len() && j < before.len() {
                    assert(before[i].0 != before[j].0);
                }
            }
            lemma_same_map(before, after, p, v, k);
        }
        self.entries = entries;
    }

    /// Drops the entry of `p`, and hands back what it held.
    pub fn remove(&mut self, p: &PeerId) -> (r: Option<V>)
        ensures
            final(self)@ == old(self)@.remove(*p),
            r == (if old(self)@.dom().contains(*p) { Some(old(self)@[*p]) } else { None }),
    {
        proof {
            use_type_invariant(&*self);
        }
        match self.find(p) {
            Some(k) => {
                let mut entries: Vec<(PeerId, V)> = Vec::new();
                std::mem::swap(&mut entries, &mut self.entries);
                let ghost before = entries@;
                let (_, v) = entries.remove(k);
                proof {
                    lemma_removed(before, entries@, k as int);
                    lemma_entry(before, k as int);
                }
                self.entries = entries;
                Some(v)
            },
            None => {
                assert(self@.remove(*p) =~= self@);
                None
            },
        }
    }
}

/// Writing `(p, v)` at place `k` of distinct entries is an insertion into their map.
proof fn lemma_same_map<V>(before: Seq<(PeerId, V)>, after: Seq<(PeerId, V)>, p: PeerId, v: V, k: int)
    requires
        distinct_keys(before),
        distinct_keys(after),
        0 <= k < after.len(),
        after[k] == (p, v),
        k < before.len() ==> after.len() == before.len() && before[k].0 == p,
        k >= before.len() ==> after.len() == before.len() + 1 && k == before.len() && !has_key(before, p),
        forall|i: int| 0 <= i < before.len() && i != k ==> #[trigger] after[i] == before[i],
    ensures
        as_map(after) == as_map(before).insert(p, v),
{
    lemma_entry(after, k);
    assert forall|q: PeerId| q != p implies (has_key(after, q) <==> has_key(before, q)) && (has_key(before, q)
        ==> as_map(after)[q] == as_map(before)[q]) by {
        if has_key(before, q) {
            let i = key_at(before, q);
            assert(after[i] == before[i]);
            lemma_entry(after, i);
            lemma_entry(before, i);
        }
        if has_key(after, q) {
            let i = key_at(after, q);
            assert(after[i] == before[i]);
        }
    }
    assert(as_map(after) =~= as_map(before).insert(p, v));
}

/// Taking the entry at place `k` out of distinct entries is a removal from their map.
proof fn lemma_removed<V>(before: Seq<(PeerId, V)>, after: Seq<(PeerId, V)>, k: int)
    requires
        distinct_keys(before),
        0 <= k < before.len(),
        after == before.remove(k),
    ensures
        distinct_keys(after),
        as_map(after) == as_map(before).remove(before[k].0),
{
    let p = before[k].0;
    assert forall|i: int| 0 <= i < after.len() implies #[trigger] after[i] == before[if i < k { i } else { i + 1 }] by {}
    assert forall|i: int, j: int| 0 <= i < after.len() && 0 <= j < after.len() && i != j implies (
    #[trigger] after[i]).0 != (#[trigger] after[j]).0 by {
        let a = if i < k { i } else { i + 1 };
        let b = if j < k { j } else { j + 1 };
        assert(before[a].0 != before[b].0);
    }
    assert forall|q: PeerId| #[trigger] has_key(after, q) <==> has_key(before, q) && q != p by {
        if has_key(after, q) {
            let i = key_at(after, q);
            let a = if i < k { i } else { i + 1 };
            assert(before[a].0 == q);
            assert(before[k].0 != before[a].0);
        }
        if has_key(before, q) && q != p {
            let a = key_at(before, q);
            let i = if a < k { a } else { a - 1 };
            assert(after[i].0 == q);
        }
    }
    assert forall|q: PeerId| has_key(after, q) implies as_map(after)[q] == as_map(before)[q] by {
        let i = key_at(after, q);
        let a = if i < k { i } else { i + 1 };
        assert(after[i] == before[a]);
        lemma_entry(after, i);
        lemma_entry(before, a);
    }
    assert(as_map(after) =~= as_map(before).remove(p));
}

}
