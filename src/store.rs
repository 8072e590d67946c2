use vstd::prelude::*;

use crate::node::same_node;

verus! {

/// How many ledgers a storage lease runs after it is renewed: thirty days of
/// five-second ledgers.
pub const LEASE_LEDGERS: u64 = 518400;

/// A value kept under a node, with the last ledger its storage lease covers.
#[derive(Clone, Copy, Debug)]
pub struct Entry<T> {
    pub node: [u8; 32],
    pub value: T,
    pub live_until: u64,
}

/// What a key space holds at ledger `seq`: entries whose lease has lapsed are
/// gone.
pub open spec fn live<T>(m: Map<Seq<u8>, Entry<T>>, n: Seq<u8>, seq: u32) -> Option<T> {
    if m.contains_key(n) && m[n].live_until >= seq {
        Some(m[n].value)
    } else {
        None
    }
}

/// The end of the lease of `n` once it is renewed at ledger `seq`.
pub open spec fn lease_after<T>(m: Map<Seq<u8>, Entry<T>>, n: Seq<u8>, seq: u32) -> u64 {
    if m.contains_key(n) && m[n].live_until > seq + LEASE_LEDGERS {
        m[n].live_until
    } else {
        (seq + LEASE_LEDGERS) as u64
    }
}

/// `m` with `value` written under `node` at ledger `seq`, its lease renewed.
pub open spec fn stored<T>(m: Map<Seq<u8>, Entry<T>>, node: [u8; 32], value: T, seq: u32) -> Map<
    Seq<u8>,
    Entry<T>,
> {
    m.insert(node@, Entry { node, value, live_until: lease_after(m, node@, seq) })
}

/// `m` with the lease of `n` renewed at ledger `seq`, if `n` is there.
pub open spec fn renewed<T>(m: Map<Seq<u8>, Entry<T>>, n: Seq<u8>, seq: u32) -> Map<
    Seq<u8>,
    Entry<T>,
> {
    if m.contains_key(n) {
        m.insert(n, Entry { live_until: lease_after(m, n, seq), ..m[n] })
    } else {
        m
    }
}

/// No node is stored twice.
pub open spec fn unique<T>(s: Seq<Entry<T>>) -> bool {
    forall|i: int, j: int|
        0 <= i < s.len() && 0 <= j < s.len() && i != j ==> #[trigger] s[i].node@ != #[trigger] s[j].node@
}

pub open spec fn holds<T>(s: Seq<Entry<T>>, n: Seq<u8>) -> bool {
    exists|i: int| 0 <= i < s.len() && #[trigger] s[i].node@ == n
}

pub open spec fn index_of<T>(s: Seq<Entry<T>>, n: Seq<u8>) -> int {
    choose|i: int| 0 <= i < s.len() && #[trigger] s[i].node@ == n
}

/// The entries of `s` as a map from node to entry.
pub open spec fn view_of<T>(s: Seq<Entry<T>>) -> Map<Seq<u8>, Entry<T>> {
    Map::new(|n: Seq<u8>| holds(s, n), |n: Seq<u8>| s[index_of(s, n)])
}

proof fn lemma_view_at<T>(s: Seq<Entry<T>>, i: int)
    requires
        unique(s),
        0 <= i < s.len(),
    ensures
        view_of(s).contains_key(s[i].node@),
        view_of(s)[s[i].node@] == s[i],
{
    let n = s[i].node@;
    assert(holds(s, n));
    let k = index_of(s, n);
    if k != i {
        assert(s[k].node@ != s[i].node@);
    }
}

proof fn lemma_view_update<T>(s: Seq<Entry<T>>, i: int, e: Entry<T>)
    requires
        unique(s),
        0 <= i < s.len(),
        e.node@ == s[i].node@,
    ensures
        unique(s.update(i, e)),
        view_of(s.update(i, e)) == view_of(s).insert(e.node@, e),
{
    let t = s.update(i, e);
    assert forall|a: int, b: int|
        0 <= a < t.len() && 0 <= b < t.len() && a != b implies #[trigger] t[a].node@
        != #[trigger] t[b].node@ by {
        assert(s[a].node@ != s[b].node@);
    }
    let expect = view_of(s).insert(e.node@, e);
    assert forall|n: Seq<u8>| #[trigger] holds(t, n) == expect.contains_key(n) by {
        if holds(t, n) {
            let k = choose|k: int| 0 <= k < t.len() && #[trigger] t[k].node@ == n;
            if k != i {
                lemma_view_at(s, k);
            }
        }
        if n != e.node@ && view_of(s).contains_key(n) {
            let k = choose|k: int| 0 <= k < s.len() && #[trigger] s[k].node@ == n;
            assert(t[k].node@ == n);
        }
        if n == e.node@ {
            assert(t[i].node@ == n);
        }
    }
    assert forall|n: Seq<u8>| #[trigger] holds(t, n) implies view_of(t)[n] == expect[n] by {
        let k = index_of(t, n);
        lemma_view_at(t, k);
        if k != i {
            lemma_view_at(s, k);
        }
    }
    assert(view_of(t) =~= expect);
}

proof fn lemma_view_push<T>(s: Seq<Entry<T>>, e: Entry<T>)
    requires
        unique(s),
        !view_of(s).contains_key(e.node@),
    ensures
        unique(s.push(e)),
        view_of(s.push(e)) == view_of(s).insert(e.node@, e),
{
    let t = s.push(e);
    let last = s.len() as int;
    assert forall|a: int, b: int|
        0 <= a < t.len() && 0 <= b < t.len() && a != b implies #[trigger] t[a].node@
        != #[trigger] t[b].node@ by {
        if a == last {
            assert(!holds(s, e.node@));
            assert(s[b].node@ != e.node@);
        } else if b == last {
            assert(!holds(s, e.node@));
            assert(s[a].node@ != e.node@);
        } else {
            assert(s[a].node@ != s[b].node@);
        }
    }
    let expect = view_of(s).insert(e.node@, e);
    assert forall|n: Seq<u8>| #[trigger] holds(t, n) == expect.contains_key(n) by {
        if holds(t, n) {
            let k = choose|k: int| 0 <= k < t.len() && #[trigger] t[k].node@ == n;
            if k != last {
                lemma_view_at(s, k);
            }
        }
        if n != e.node@ && view_of(s).contains_key(n) {
            let k = choose|k: int| 0 <= k < s.len() && #[trigger] s[k].node@ == n;
            assert(t[k].node@ == n);
        }
        if n == e.node@ {
            assert(t[last].node@ == n);
        }
    }
    assert forall|n: Seq<u8>| #[trigger] holds(t, n) implies view_of(t)[n] == expect[n] by {
        let k = index_of(t, n);
        lemma_view_at(t, k);
        if k != last {
            lemma_view_at(s, k);
        }
    }
    assert(view_of(t) =~= expect);
}

proof fn lemma_view_remove<T>(s: Seq<Entry<T>>, i: int)
    requires
        unique(s),
        0 <= i < s.len(),
    ensures
        unique(s.remove(i)),
        view_of(s.remove(i)) == view_of(s).remove(s[i].node@),
{
    let t = s.remove(i);
    let gone = s[i].node@;
    assert forall|a: int, b: int|
        0 <= a < t.len() && 0 <= b < t.len() && a != b implies #[trigger] t[a].node@
        != #[trigger] t[b].node@ by {
        let a2 = if a < i { a } else { a + 1 };
        let b2 = if b < i { b } else { b + 1 };
        assert(s[a2].node@ != s[b2].node@);
    }
    let expect = view_of(s).remove(gone);
    assert forall|n: Seq<u8>| #[trigger] holds(t, n) == expect.contains_key(n) by {
        if holds(t, n) {
            let k = choose|k: int| 0 <= k < t.len() && #[trigger] t[k].node@ == n;
            let k2 = if k < i { k } else { k + 1 };
            assert(s[k2].node@ == n);
            assert(s[k2].node@ != s[i].node@);
            lemma_view_at(s, k2);
        }
        if n != gone && view_of(s).contains_key(n) {
            let k = choose|k: int| 0 <= k < s.len() && #[trigger] s[k].node@ == n;
            if k < i {
                assert(t[k].node@ == n);
            } else {
                assert(k != i);
                assert(t[k - 1].node@ == n);
            }
        }
    }
    assert forall|n: Seq<u8>| #[trigger] holds(t, n) implies view_of(t)[n] == expect[n] by {
        let k = index_of(t, n);
        lemma_view_at(t, k);
        let k2 = if k < i { k } else { k + 1 };
        assert(s[k2] == t[k]);
        lemma_view_at(s, k2);
    }
    assert(view_of(t) =~= expect);
}

/// One key space of durable storage: values keyed by node, each under a lease.
#[derive(Clone)]
pub struct Table<T> {
    pub entries: Vec<Entry<T>>,
}

impl<T: Copy> Table<T> {
    pub open spec fn wf(&self) -> bool {
        unique(self.entries@)
    }

    pub open spec fn view(&self) -> Map<Seq<u8>, Entry<T>> {
        view_of(self.entries@)
    }

    pub fn new() -> (r: Self)
        ensures
            r.wf(),
            r.view() == Map::<Seq<u8>, Entry<T>>::empty(),
    {
        let r = Table { entries: Vec::new() };
        assert(r.view() =~= Map::<Seq<u8>, Entry<T>>::empty());
        r
    }

    /// The position of `node`, if it is stored.
    fn find(&self, node: &[u8; 32]) -> (r: Option<usize>)
        requires
            self.wf(),
        ensures
            match r {
                Some(i) => i < self.entries@.len() && self.entries@[i as int].node@ == node@
                    && self.view().contains_key(node@) && self.view()[node@]
                    == self.entries@[i as int],
                None => !self.view().contains_key(node@),
            },
    {
        let mut i: usize = 0;
        while i < self.entries.len()
            invariant
                self.wf(),
                i <= self.entries@.len(),
                forall|j: int| 0 <= j < i ==> #[trigger] self.entries@[j].node@ != node@,
            decreases self.entries@.len() - i,
        {
            if same_node(&self.entries[i].node, node) {
                proof {
                    lemma_view_at(self.entries@, i as int);
                }
                return Some(i);
            }
            i += 1;
        }
        None
    }

    /// The value under `node` at ledger `seq`, if its lease has not lapsed.
    pub fn get(&self, node: &[u8; 32], seq: u32) -> (r: Option<T>)
        requires
            self.wf(),
        ensures
            r == live(self.view(), node@, seq),
    {
        match self.find(node) {
            Some(i) => {
                if self.entries[i].live_until >= seq as u64 {
                    Some(self.entries[i].value)
                } else {
                    None
                }
            },
            None => None,
        }
    }

    /// Writes `value` under `node` at ledger `seq`, renewing its lease.
    pub fn put(&mut self, node: [u8; 32], value: T, seq: u32)
        requires
            old(self).wf(),
        ensures
            final(self).wf(),
            final(self).view() == stored(old(self).view(), node, value, seq),
    {
        let fresh: u64 = seq as u64 + LEASE_LEDGERS;
        match self.find(&node) {
            Some(i) => {
                let until = if self.entries[i].live_until > fresh {
                    self.entries[i].live_until
                } else {
                    fresh
                };
                let e = Entry { node, value, live_until: until };
                proof {
                    lemma_view_update(self.entries@, i as int, e);
                }
                self.entries.set(i, e);
            },
            None => {
                let e = Entry { node, value, live_until: fresh };
                proof {
                    lemma_view_push(self.entries@, e);
                }
                self.entries.push(e);
            },
        }
    }

    /// Renews at ledger `seq` the lease of `node`, if it is stored.
    pub fn renew(&mut self, node: &[u8; 32], seq: u32)
        requires
            old(self).wf(),
        ensures
            final(self).wf(),
            final(self).view() == renewed(old(self).view(), node@, seq),
    {
        let fresh: u64 = seq as u64 + LEASE_LEDGERS;
        match self.find(node) {
            Some(i) => {
                let old_entry = self.entries[i];
                if old_entry.live_until < fresh {
                    let e = Entry { live_until: fresh, ..old_entry };
                    proof {
                        lemma_view_update(self.entries@, i as int, e);
                    }
                    self.entries.set(i, e);
                } else {
                    assert(self.view().insert(node@, old_entry) =~= self.view());
                }
            },
            None => {},
        }
    }

    /// Removes whatever is stored under `node`.
    pub fn remove(&mut self, node: &[u8; 32])
        requires
            old(self).wf(),
        ensures
            final(self).wf(),
            final(self).view() == old(self).view().remove(node@),
    {
        match self.find(node) {
            Some(i) => {
                proof {
                    lemma_view_remove(self.entries@, i as int);
                }
                self.entries.remove(i);
            },
            None => {
                assert(self.view().remove(node@) =~= self.view());
            },
        }
    }
}

} // verus!
