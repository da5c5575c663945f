//! Bookkeeping of the connection pool: which devices have a pooled
//! connection and how many users hold each. The connections themselves are
//! opened, checked and closed by the I/O layer, which consults this ledger.

use vstd::prelude::*;
use crate::text::{chars_eq, chars_of};

verus! {

/// Statistics of the pool.
#[derive(Debug, Clone, Copy, PartialEq, Eq, Structural)]
pub struct PoolStats {
    /// Devices with a pooled connection.
    pub total_connections: usize,
    /// Devices whose connection someone holds.
    pub active_connections: usize,
}

struct PoolEntry {
    device_id: String,
    ref_count: usize,
}

/// A pooled device: its ID and how many users hold its connection.
pub type PooledView = (Seq<char>, usize);

spec fn entry_view(e: PoolEntry) -> PooledView {
    (e.device_id@, e.ref_count)
}

/// No device appears twice.
pub open spec fn distinct_devices(s: Seq<PooledView>) -> bool {
    forall|i: int, j: int| 0 <= i < s.len() && 0 <= j < s.len() && i != j ==> #[trigger] s[i].0 != #[trigger] s[j].0
}

/// Whether the device has a pooled connection.
pub open spec fn pooled(s: Seq<PooledView>, id: Seq<char>) -> bool {
    exists|i: int| 0 <= i < s.len() && #[trigger] s[i].0 == id
}

/// How many users hold the device's connection, if it is pooled.
pub open spec fn ref_count_of(s: Seq<PooledView>, id: Seq<char>) -> Option<usize> {
    if pooled(s, id) {
        Some(s[choose|i: int| 0 <= i < s.len() && #[trigger] s[i].0 == id].1)
    } else {
        None
    }
}

/// Number of devices whose connection someone holds.
pub open spec fn active_count(s: Seq<PooledView>) -> nat
    decreases s.len(),
{
    if s.len() == 0 {
        0
    } else {
        active_count(s.drop_last()) + if s.last().1 > 0 {
            1nat
        } else {
            0nat
        }
    }
}

proof fn lemma_ref_count_at(s: Seq<PooledView>, i: int)
    requires
        distinct_devices(s),
        0 <= i < s.len(),
    ensures
        ref_count_of(s, s[i].0) == Some(s[i].1),
{
    assert(pooled(s, s[i].0));
    let j = choose|j: int| 0 <= j < s.len() && #[trigger] s[j].0 == s[i].0;
    if j != i {
        assert(s[j].0 != s[i].0);
    }
}

proof fn lemma_active_count_bound(s: Seq<PooledView>)
    ensures
        active_count(s) <= s.len(),
    decreases s.len(),
{
    if s.len() > 0 {
        lemma_active_count_bound(s.drop_last());
    }
}

/// The pool's ledger: each pooled device with its holder count.
pub struct PoolLedger {
    entries: Vec<PoolEntry>,
}

impl View for PoolLedger {
    type V = Seq<PooledView>;

    closed spec fn view(&self) -> Seq<PooledView> {
        self.entries@.map_values(|e: PoolEntry| entry_view(e))
    }
}

/// Entry `i` of a ledger's view.
proof fn lemma_view_index(v: Vec<PoolEntry>, i: int)
    requires
        0 <= i < v@.len(),
    ensures
        v@.map_values(|e: PoolEntry| entry_view(e))[i] == entry_view(v@[i]),
{
}

impl PoolLedger {
    #[verifier::type_invariant]
    spec fn no_duplicates(self) -> bool {
        distinct_devices(self@)
    }

    /// An empty ledger.
    pub fn new() -> (r: PoolLedger)
        ensures
            r@ == Seq::<PooledView>::empty(),
    {
        let r = PoolLedger { entries: Vec::new() };
        assert(r@ =~= Seq::<PooledView>::empty());
        r
    }

    /// No device appears twice in the ledger.
    pub fn check_distinct(&self)
        ensures
            distinct_devices(self@),
    {
        proof {
            use_type_invariant(self);
        }
    }

    fn position(&self, device_id: &str) -> (r: Option<usize>)
        ensures
            match r {
                Some(i) => i < self@.len() && self@[i as int].0 == device_id@,
                None => !pooled(self@, device_id@),
            },
    {
        let id = chars_of(device_id);
        let mut i: usize = 0;
        while i < self.entries.len()
            invariant
                i <= self@.len(),
                self@.len() == self.entries@.len(),
                id@ == device_id@,
                forall|j: int| 0 <= j < i ==> #[trigger] self@[j].0 != device_id@,
            decreases self@.len() - i,
        {
            let e = chars_of(self.entries[i].device_id.as_str());
            proof {
                lemma_view_index(self.entries, i as int);
            }
            if chars_eq(e.as_slice(), id.as_slice()) {
                return Some(i);
            }
            i = i + 1;
        }
        None
    }

    /// How many users hold the device's connection, if it is pooled.
    pub fn ref_count(&self, device_id: &str) -> (r: Option<usize>)
        ensures
            r == ref_count_of(self@, device_id@),
    {
        proof {
            use_type_invariant(self);
        }
        match self.position(device_id) {
            Some(i) => {
                proof {
                    lemma_view_index(self.entries, i as int);
                    lemma_ref_count_at(self@, i as int);
                }
                Some(self.entries[i].ref_count)
            },
            None => None,
        }
    }

    /// Set the holder count of the entry at `i`, leaving its device as it is.
    fn set_count(&mut self, i: usize, count: usize)
        requires
            i < old(self)@.len(),
        ensures
            final(self)@ == old(self)@.update(i as int, (old(self)@[i as int].0, count)),
    {
        proof {
            use_type_invariant(&*self);
        }
        let mut entries = Vec::new();
        std::mem::swap(&mut entries, &mut self.entries);
        let ghost before = entries@.map_values(|e: PoolEntry| entry_view(e));
        let id = entries[i].device_id.clone();
        entries.set(i, PoolEntry { device_id: id, ref_count: count });
        let ghost after = entries@.map_values(|e: PoolEntry| entry_view(e));
        assert(after =~= before.update(i as int, (before[i as int].0, count)));
        assert(distinct_devices(after)) by {
            assert forall|a: int, b: int| 0 <= a < after.len() && 0 <= b < after.len() && a != b implies #[trigger] after[a].0 != #[trigger] after[b].0 by {
                assert(after[a].0 == before[a].0);
                assert(after[b].0 == before[b].0);
            }
        }
        self.entries = entries;
    }

    /// One more user takes the device's pooled connection.
    pub fn acquire(&mut self, device_id: &str)
        requires
            ref_count_of(old(self)@, device_id@) matches Some(c) && c < usize::MAX,
        ensures
            final(self)@.len() == old(self)@.len(),
            forall|k: Seq<char>| #[trigger] ref_count_of(final(self)@, k) == if k == device_id@ {
                Some((ref_count_of(old(self)@, device_id@)->0 + 1) as usize)
            } else {
                ref_count_of(old(self)@, k)
            },
    {
        proof {
            use_type_invariant(&*self);
        }
        match self.position(device_id) {
            Some(i) => {
                proof {
                    lemma_view_index(self.entries, i as int);
                    lemma_ref_count_at(self@, i as int);
                }
                let c = self.entries[i].ref_count;
                let ghost old_view = self@;
                self.set_count(i, c + 1);
                proof {
                    use_type_invariant(&*self);
                    lemma_update_counts(old_view, i as int, (c + 1) as usize);
                }
            },
            None => {},
        }
    }

    /// One user gives the device's connection back; the count does not go
    /// below zero.
    pub fn release(&mut self, device_id: &str)
        ensures
            final(self)@.len() == old(self)@.len(),
            forall|k: Seq<char>| #[trigger] ref_count_of(final(self)@, k) == if k == device_id@ {
                match ref_count_of(old(self)@, k) {
                    Some(c) => Some(if c > 0 { (c - 1) as usize } else { 0usize }),
                    None => None,
                }
            } else {
                ref_count_of(old(self)@, k)
            },
    {
        proof {
            use_type_invariant(&*self);
        }
        match self.position(device_id) {
            Some(i) => {
                proof {
                    lemma_view_index(self.entries, i as int);
                    lemma_ref_count_at(self@, i as int);
                }
                let c = self.entries[i].ref_count;
                let n = c.saturating_sub(1);
                let ghost old_view = self@;
                self.set_count(i, n);
                proof {
                    lemma_update_counts(old_view, i as int, n);
                }
            },
            None => {},
        }
    }

    /// Pool a fresh connection for the device, held by one user; it replaces
    /// any entry the device had.
    pub fn insert_fresh(&mut self, device_id: &str)
        ensures
            final(self)@.len() == old(self)@.len() + if pooled(old(self)@, device_id@) {
                0int
            } else {
                1int
            },
            forall|k: Seq<char>| #[trigger] ref_count_of(final(self)@, k) == if k == device_id@ {
                Some(1usize)
            } else {
                ref_count_of(old(self)@, k)
            },
    {
        proof {
            use_type_invariant(&*self);
        }
        match self.position(device_id) {
            Some(i) => {
                let ghost old_view = self@;
                self.set_count(i, 1);
                proof {
                    lemma_update_counts(old_view, i as int, 1);
                }
            },
            None => {
                let ghost old_view = self@;
                let mut entries = Vec::new();
                std::mem::swap(&mut entries, &mut self.entries);
                entries.push(PoolEntry { device_id: device_id.to_owned(), ref_count: 1 });
                let ghost after = entries@.map_values(|e: PoolEntry| entry_view(e));
                assert(after =~= old_view.push((device_id@, 1usize)));
                proof {
                    lemma_push_counts(old_view, device_id@);
                }
                self.entries = entries;
            },
        }
    }

    /// Drop the device's entry.
    pub fn remove(&mut self, device_id: &str)
        ensures
            final(self)@.len() == old(self)@.len() - if pooled(old(self)@, device_id@) {
                1int
            } else {
                0int
            },
            forall|k: Seq<char>| #[trigger] ref_count_of(final(self)@, k) == if k == device_id@ {
                None
            } else {
                ref_count_of(old(self)@, k)
            },
    {
        proof {
            use_type_invariant(&*self);
        }
        match self.position(device_id) {
            Some(i) => {
                let ghost old_view = self@;
                let mut entries = Vec::new();
                std::mem::swap(&mut entries, &mut self.entries);
                entries.remove(i);
                let ghost after = entries@.map_values(|e: PoolEntry| entry_view(e));
                assert(after =~= old_view.remove(i as int));
                proof {
                    lemma_remove_counts(old_view, i as int);
                }
                self.entries = entries;
            },
            None => {},
        }
    }

    /// Drop every entry.
    pub fn clear(&mut self)
        ensures
            final(self)@ == Seq::<PooledView>::empty(),
    {
        self.entries = Vec::new();
        assert(self@ =~= Seq::<PooledView>::empty());
    }

    /// The devices of the pool, in ledger order.
    pub fn device_ids(&self) -> (r: Vec<String>)
        ensures
            r@.len() == self@.len(),
            forall|i: int| 0 <= i < r@.len() ==> #[trigger] r@[i]@ == self@[i].0,
    {
        let mut r: Vec<String> = Vec::new();
        let mut i: usize = 0;
        while i < self.entries.len()
            invariant
                i <= self@.len(),
                self@.len() == self.entries@.len(),
                r@.len() == i,
                forall|j: int| 0 <= j < i ==> #[trigger] r@[j]@ == self@[j].0,
            decreases self@.len() - i,
        {
            proof {
                lemma_view_index(self.entries, i as int);
            }
            r.push(self.entries[i].device_id.clone());
            i = i + 1;
        }
        r
    }

    /// Statistics: devices pooled, and devices whose connection is held.
    pub fn stats(&self) -> (r: PoolStats)
        ensures
            r.total_connections == self@.len(),
            r.active_connections == active_count(self@),
            r.active_connections <= r.total_connections,
    {
        let mut active: usize = 0;
        let mut i: usize = 0;
        while i < self.entries.len()
            invariant
                i <= self@.len(),
                self@.len() == self.entries@.len(),
                active == active_count(self@.take(i as int)),
            decreases self@.len() - i,
        {
            proof {
                lemma_view_index(self.entries, i as int);
                assert(self@.take(i + 1).drop_last() == self@.take(i as int));
                lemma_active_count_bound(self@.take(i as int));
            }
            if self.entries[i].ref_count > 0 {
                active = active + 1;
            }
            i = i + 1;
        }
        proof {
            assert(self@.take(self@.len() as int) == self@);
            lemma_active_count_bound(self@);
        }
        PoolStats { total_connections: self.entries.len(), active_connections: active }
    }
}

proof fn lemma_update_counts(s: Seq<PooledView>, i: int, v: usize)
    requires
        distinct_devices(s),
        0 <= i < s.len(),
    ensures
        distinct_devices(s.update(i, (s[i].0, v))),
        forall|k: Seq<char>| #[trigger] ref_count_of(s.update(i, (s[i].0, v)), k) == if k == s[i].0 {
            Some(v)
        } else {
            ref_count_of(s, k)
        },
{
    let t = s.update(i, (s[i].0, v));
    assert forall|a: int, b: int| 0 <= a < t.len() && 0 <= b < t.len() && a != b implies #[trigger] t[a].0 != #[trigger] t[b].0 by {
        assert(t[a].0 == s[a].0);
        assert(t[b].0 == s[b].0);
    }
    assert forall|k: Seq<char>| #[trigger] ref_count_of(t, k) == if k == s[i].0 {
        Some(v)
    } else {
        ref_count_of(s, k)
    } by {
        if k == s[i].0 {
            lemma_ref_count_at(t, i);
        } else if pooled(s, k) {
            let j = choose|j: int| 0 <= j < s.len() && #[trigger] s[j].0 == k;
            assert(t[j].0 == k);
            lemma_ref_count_at(s, j);
            lemma_ref_count_at(t, j);
        } else {
            if pooled(t, k) {
                let j = choose|j: int| 0 <= j < t.len() && #[trigger] t[j].0 == k;
                assert(s[j].0 == k);
            }
        }
    }
}

proof fn lemma_push_counts(s: Seq<PooledView>, id: Seq<char>)
    requires
        distinct_devices(s),
        !pooled(s, id),
    ensures
        distinct_devices(s.push((id, 1usize))),
        forall|k: Seq<char>| #[trigger] ref_count_of(s.push((id, 1usize)), k) == if k == id {
            Some(1usize)
        } else {
            ref_count_of(s, k)
        },
{
    let t = s.push((id, 1usize));
    assert forall|a: int, b: int| 0 <= a < t.len() && 0 <= b < t.len() && a != b implies #[trigger] t[a].0 != #[trigger] t[b].0 by {
        if a < s.len() && b < s.len() {
            assert(t[a] == s[a]);
            assert(t[b] == s[b]);
        } else if a < s.len() {
            assert(t[a] == s[a]);
        } else if b < s.len() {
            assert(t[b] == s[b]);
        }
    }
    assert forall|k: Seq<char>| #[trigger] ref_count_of(t, k) == if k == id {
        Some(1usize)
    } else {
        ref_count_of(s, k)
    } by {
        if k == id {
            lemma_ref_count_at(t, s.len() as int);
        } else if pooled(s, k) {
            let j = choose|j: int| 0 <= j < s.len() && #[trigger] s[j].0 == k;
            assert(t[j] == s[j]);
            lemma_ref_count_at(s, j);
            lemma_ref_count_at(t, j);
        } else {
            if pooled(t, k) {
                let j = choose|j: int| 0 <= j < t.len() && #[trigger] t[j].0 == k;
                if j < s.len() {
                    assert(t[j] == s[j]);
                }
            }
        }
    }
}

proof fn lemma_remove_counts(s: Seq<PooledView>, i: int)
    requires
        distinct_devices(s),
        0 <= i < s.len(),
    ensures
        distinct_devices(s.remove(i)),
        forall|k: Seq<char>| #[trigger] ref_count_of(s.remove(i), k) == if k == s[i].0 {
            None
        } else {
            ref_count_of(s, k)
        },
{
    let t = s.remove(i);
    assert forall|a: int| 0 <= a < t.len() implies #[trigger] t[a] == s[if a < i { a } else { a + 1 }] by {
    }
    assert forall|a: int, b: int| 0 <= a < t.len() && 0 <= b < t.len() && a != b implies #[trigger] t[a].0 != #[trigger] t[b].0 by {
        assert(t[a] == s[if a < i { a } else { a + 1 }]);
        assert(t[b] == s[if b < i { b } else { b + 1 }]);
    }
    assert forall|k: Seq<char>| #[trigger] ref_count_of(t, k) == if k == s[i].0 {
        None
    } else {
        ref_count_of(s, k)
    } by {
        if pooled(t, k) {
            let j = choose|j: int| 0 <= j < t.len() && #[trigger] t[j].0 == k;
            let js = if j < i { j } else { j + 1 };
            assert(t[j] == s[js]);
            if k == s[i].0 {
                assert(js != i);
            } else {
                lemma_ref_count_at(s, js);
                lemma_ref_count_at(t, j);
            }
        } else if k != s[i].0 && pooled(s, k) {
            let j = choose|j: int| 0 <= j < s.len() && #[trigger] s[j].0 == k;
            assert(j != i);
            let jt = if j < i { j } else { j - 1 };
            assert(t[jt] == s[j]);
        }
    }
}

} // verus!
