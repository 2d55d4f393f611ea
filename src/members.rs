//! The member registry: how many live identities each address has. The
//! membership engine reports identities going up and down; several
//! identities may share an address across rejoins, and the registry turns
//! that into address-level events.

use vstd::prelude::*;
use crate::identity::{ID, PeerAddr};

verus! {

/// The count of `addr` in `counts` (zero where absent).
pub open spec fn count_of(counts: Map<PeerAddr, nat>, addr: PeerAddr) -> nat {
    if counts.contains_key(addr) {
        counts[addr]
    } else {
        0
    }
}

/// The counts after one more identity of `addr` came up. A count stops at
/// `u64::MAX`.
pub open spec fn counts_after_add(counts: Map<PeerAddr, nat>, addr: PeerAddr) -> Map<PeerAddr, nat> {
    if count_of(counts, addr) >= u64::MAX {
        counts
    } else {
        counts.insert(addr, count_of(counts, addr) + 1)
    }
}

/// The counts after one identity of `addr` went down. An address whose
/// count reaches zero leaves; an unknown address changes nothing.
pub open spec fn counts_after_remove(counts: Map<PeerAddr, nat>, addr: PeerAddr) -> Map<PeerAddr, nat> {
    if count_of(counts, addr) == 0 {
        counts
    } else if count_of(counts, addr) == 1 {
        counts.remove(addr)
    } else {
        counts.insert(addr, (count_of(counts, addr) - 1) as nat)
    }
}

/// Registry transitions: adding reports a change exactly when the count of
/// the address goes from zero to one, removing exactly when it goes from one
/// to zero, and every address kept has a positive count.
pub proof fn law_registry_transitions(counts: Map<PeerAddr, nat>, addr: PeerAddr)
    requires
        forall|a: PeerAddr| #[trigger] counts.contains_key(a) ==> counts[a] > 0,
    ensures
        !counts.contains_key(addr) <==> (count_of(counts, addr) == 0 && count_of(
            counts_after_add(counts, addr),
            addr,
        ) == 1),
        (count_of(counts, addr) == 1) <==> (count_of(counts, addr) > 0 && count_of(
            counts_after_remove(counts, addr),
            addr,
        ) == 0),
        forall|a: PeerAddr| #[trigger]
            counts_after_add(counts, addr).contains_key(a) ==> counts_after_add(counts, addr)[a] > 0,
        forall|a: PeerAddr| #[trigger]
            counts_after_remove(counts, addr).contains_key(a) ==> counts_after_remove(counts, addr)[a] > 0,
{
}

/// A `HashMap` keyed by `PeerAddr` would prove nothing here: vstd's model of
/// a hash map holds only for keys whose `Hash` and `Eq` it trusts, which a
/// derived impl on a type of this library is not. So the counts sit in a
/// vector whose addresses are kept unique.
pub struct Members {
    entries: Vec<(PeerAddr, u64)>,
    counts: Ghost<Map<PeerAddr, nat>>,
}

impl Members {
    /// For each live address, how many live identities it has.
    pub closed spec fn counts(&self) -> Map<PeerAddr, nat> {
        self.counts@
    }

    pub closed spec fn wf(&self) -> bool {
        &&& forall|i: int, j: int|
            0 <= i < j < self.entries@.len() ==> #[trigger] self.entries@[i].0 != #[trigger] self.entries@[j].0
        &&& forall|i: int|
            0 <= i < self.entries@.len() ==> self.counts@.contains_key(#[trigger] self.entries@[i].0)
                && self.counts@[self.entries@[i].0] == self.entries@[i].1
        &&& forall|a: PeerAddr| #[trigger]
            self.counts@.contains_key(a) ==> exists|i: int| 0 <= i < self.entries@.len() && #[trigger] self.entries@[i].0 == a
        &&& forall|a: PeerAddr| #[trigger] self.counts@.contains_key(a) ==> self.counts@[a] > 0
    }

    /// Every address the registry holds has a positive count.
    pub proof fn lemma_counts_positive(&self)
        requires
            self.wf(),
        ensures
            forall|a: PeerAddr| #[trigger] self.counts().contains_key(a) ==> self.counts()[a] > 0,
    {
    }

    pub fn new() -> (r: Members)
        ensures
            r.wf(),
            r.counts() == Map::<PeerAddr, nat>::empty(),
    {
        Members { entries: Vec::new(), counts: Ghost(Map::empty()) }
    }

    fn find(&self, addr: PeerAddr) -> (r: Option<usize>)
        requires
            self.wf(),
        ensures
            match r {
                Some(i) => i < self.entries@.len() && self.entries@[i as int].0 == addr,
                None => !self.counts().contains_key(addr),
            },
    {
        let mut i: usize = 0;
        while i < self.entries.len()
            invariant
                i <= self.entries@.len(),
                forall|j: int| 0 <= j < i ==> self.entries@[j].0 != addr,
            decreases self.entries@.len() - i,
        {
            if self.entries[i].0 == addr {
                return Some(i);
            }
            i = i + 1;
        }
        None
    }

    /// Counts one more live identity at `member`'s address. The result is
    /// `true` exactly when the address was not live before.
    pub fn add_member(&mut self, member: ID) -> (r: bool)
        requires
            old(self).wf(),
        ensures
            final(self).wf(),
            r == !old(self).counts().contains_key(member.addr),
            r == (count_of(old(self).counts(), member.addr) == 0),
            forall|a: PeerAddr| #[trigger] final(self).counts().contains_key(a) ==> final(self).counts()[a] > 0,
            final(self).counts() == counts_after_add(old(self).counts(), member.addr),
    {
        let addr = member.addr;
        match self.find(addr) {
            Some(i) => {
                let c = self.entries[i].1;
                if c < u64::MAX {
                    let ghost old_entries = self.entries@;
                    self.entries.set(i, (addr, c + 1));
                    self.counts = Ghost(self.counts@.insert(addr, (c + 1) as nat));
                    assert forall|a: PeerAddr| #[trigger] self.counts@.contains_key(a) implies exists|k: int|
                        0 <= k < self.entries@.len() && #[trigger] self.entries@[k].0 == a by {
                        let k = choose|k: int| 0 <= k < old_entries.len() && #[trigger] old_entries[k].0 == a;
                        assert(self.entries@[k].0 == a);
                    }
                }
                false
            },
            None => {
                let ghost old_entries = self.entries@;
                self.entries.push((addr, 1));
                self.counts = Ghost(self.counts@.insert(addr, 1));
                assert forall|a: PeerAddr| #[trigger] self.counts@.contains_key(a) implies exists|k: int|
                    0 <= k < self.entries@.len() && #[trigger] self.entries@[k].0 == a by {
                    if a == addr {
                        assert(self.entries@[old_entries.len() as int].0 == a);
                    } else {
                        let k = choose|k: int| 0 <= k < old_entries.len() && #[trigger] old_entries[k].0 == a;
                        assert(self.entries@[k].0 == a);
                    }
                }
                true
            },
        }
    }

    /// Counts one live identity less at `member`'s address. The result is
    /// `true` exactly when the address stops being live; an address that is
    /// not live is left alone.
    pub fn remove_member(&mut self, member: ID) -> (r: bool)
        requires
            old(self).wf(),
        ensures
            final(self).wf(),
            r == (count_of(old(self).counts(), member.addr) == 1),
            forall|a: PeerAddr| #[trigger] final(self).counts().contains_key(a) ==> final(self).counts()[a] > 0,
            final(self).counts() == counts_after_remove(old(self).counts(), member.addr),
    {
        let addr = member.addr;
        match self.find(addr) {
            Some(i) => {
                let c = self.entries[i].1;
                let ghost old_entries = self.entries@;
                if c == 1 {
                    self.entries.remove(i);
                    self.counts = Ghost(self.counts@.remove(addr));
                    assert forall|j: int, k: int| 0 <= j < k < self.entries@.len() implies #[trigger] self.entries@[j].0
                        != #[trigger] self.entries@[k].0 by {
                        let jj = if j < i { j } else { j + 1 };
                        let kk = if k < i { k } else { k + 1 };
                        assert(self.entries@[j] == old_entries[jj]);
                        assert(self.entries@[k] == old_entries[kk]);
                    }
                    assert forall|j: int| 0 <= j < self.entries@.len() implies self.counts@.contains_key(
                        #[trigger] self.entries@[j].0,
                    ) && self.counts@[self.entries@[j].0] == self.entries@[j].1 by {
                        let jj = if j < i { j } else { j + 1 };
                        assert(self.entries@[j] == old_entries[jj]);
                    }
                    assert forall|a: PeerAddr| #[trigger] self.counts@.contains_key(a) implies exists|k: int|
                        0 <= k < self.entries@.len() && #[trigger] self.entries@[k].0 == a by {
                        let k = choose|k: int| 0 <= k < old_entries.len() && #[trigger] old_entries[k].0 == a;
                        assert(k != i);
                        let kk = if k < i { k } else { k - 1 };
                        assert(self.entries@[kk] == old_entries[k]);
                    }
                    true
                } else {
                    self.entries.set(i, (addr, c - 1));
                    self.counts = Ghost(self.counts@.insert(addr, (c - 1) as nat));
                    assert forall|a: PeerAddr| #[trigger] self.counts@.contains_key(a) implies exists|k: int|
                        0 <= k < self.entries@.len() && #[trigger] self.entries@[k].0 == a by {
                        let k = choose|k: int| 0 <= k < old_entries.len() && #[trigger] old_entries[k].0 == a;
                        assert(self.entries@[k].0 == a);
                    }
                    false
                }
            },
            None => false,
        }
    }

    /// The live addresses, each once.
    pub fn addresses(&self) -> (r: Vec<PeerAddr>)
        requires
            self.wf(),
        ensures
            r@.no_duplicates(),
            r@.to_set() == self.counts().dom(),
            forall|a: PeerAddr| r@.contains(a) <==> count_of(self.counts(), a) > 0,
    {
        proof {
            self.lemma_counts_positive();
        }
        let mut out: Vec<PeerAddr> = Vec::new();
        let mut i: usize = 0;
        while i < self.entries.len()
            invariant
                self.wf(),
                i <= self.entries@.len(),
                out@.len() == i,
                forall|j: int| 0 <= j < i ==> out@[j] == #[trigger] self.entries@[j].0,
            decreases self.entries@.len() - i,
        {
            out.push(self.entries[i].0);
            i = i + 1;
        }
        assert forall|a: PeerAddr| out@.to_set().contains(a) <==> self.counts().dom().contains(a) by {
            if self.counts@.contains_key(a) {
                let k = choose|k: int| 0 <= k < self.entries@.len() && #[trigger] self.entries@[k].0 == a;
                assert(out@[k] == a);
            }
            if out@.to_set().contains(a) {
                let k = choose|k: int| 0 <= k < out@.len() && out@[k] == a;
                assert(self.entries@[k].0 == a);
            }
        }
        assert(out@.to_set() =~= self.counts().dom());
        assert forall|j: int, k: int| 0 <= j < out@.len() && 0 <= k < out@.len() && j != k implies out@[j] != out@[k] by {
            if j < k {
                assert(self.entries@[j].0 != self.entries@[k].0);
            } else {
                assert(self.entries@[k].0 != self.entries@[j].0);
            }
        }
        out
    }
}

} // verus!
