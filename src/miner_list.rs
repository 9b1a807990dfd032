use vstd::prelude::*;
use crate::difficulty::{Difficulties, Difficulty};
use crate::miner::{Miner, ShareKind, share_recorded};
use crate::session_id::SessionID;

verus! {

/// The entry under `k`, the last one for it winning.
pub open spec fn lookup(s: Seq<(SessionID, Miner)>, k: u32) -> Option<Miner>
    decreases s.len(),
{
    if s.len() == 0 {
        None
    } else if s.last().0@ == k {
        Some(s.last().1)
    } else {
        lookup(s.drop_last(), k)
    }
}

pub open spec fn unique_ids(s: Seq<(SessionID, Miner)>) -> bool {
    forall|i: int, j: int| 0 <= i < j < s.len() ==> (#[trigger] s[i]).0@ != (#[trigger] s[j]).0@
}

proof fn lemma_lookup_push(s: Seq<(SessionID, Miner)>, e: (SessionID, Miner), k: u32)
    ensures
        lookup(s.push(e), k) == if e.0@ == k { Some(e.1) } else { lookup(s, k) },
{
    assert(s.push(e).drop_last() =~= s);
}

proof fn lemma_lookup_some(s: Seq<(SessionID, Miner)>, k: u32)
    requires
        lookup(s, k) is Some,
    ensures
        exists|i: int| 0 <= i < s.len() && s[i].0@ == k,
    decreases s.len(),
{
    if s.last().0@ != k {
        lemma_lookup_some(s.drop_last(), k);
        let i = choose|i: int| 0 <= i < s.drop_last().len() && s.drop_last()[i].0@ == k;
        assert(s[i].0@ == k);
    }
}

proof fn lemma_lookup_at(s: Seq<(SessionID, Miner)>, i: int)
    requires
        unique_ids(s),
        0 <= i < s.len(),
    ensures
        lookup(s, s[i].0@) == Some(s[i].1),
    decreases s.len(),
{
    if i != s.len() - 1 {
        assert(s.drop_last()[i] == s[i]);
        lemma_lookup_at(s.drop_last(), i);
    }
}

proof fn lemma_lookup_absent(s: Seq<(SessionID, Miner)>, k: u32)
    requires
        forall|i: int| 0 <= i < s.len() ==> (#[trigger] s[i]).0@ != k,
    ensures
        lookup(s, k) is None,
{
    if lookup(s, k) is Some {
        lemma_lookup_some(s, k);
    }
}

proof fn lemma_lookup_remove(s: Seq<(SessionID, Miner)>, i: int, k: u32)
    requires
        unique_ids(s),
        0 <= i < s.len(),
    ensures
        lookup(s.remove(i), k) == if k == s[i].0@ { None } else { lookup(s, k) },
    decreases s.len(),
{
    let t = s.remove(i);
    if k == s[i].0@ {
        assert forall|j: int| 0 <= j < t.len() implies (#[trigger] t[j]).0@ != k by {
            if j < i {
                assert(t[j] == s[j]);
            } else {
                assert(t[j] == s[j + 1]);
            }
        }
        lemma_lookup_absent(t, k);
    } else if i == s.len() - 1 {
        assert(t =~= s.drop_last());
    } else {
        assert(t.drop_last() =~= s.drop_last().remove(i));
        assert(t.last() == s.last());
        lemma_lookup_remove(s.drop_last(), i, k);
    }
}

proof fn lemma_lookup_some_index(s: Seq<(SessionID, Miner)>, a: int)
    requires
        0 <= a < s.len(),
    ensures
        lookup(s, s[a].0@) is Some,
    decreases s.len(),
{
    if a != s.len() - 1 && s.last().0@ != s[a].0@ {
        assert(s.drop_last()[a] == s[a]);
        lemma_lookup_some_index(s.drop_last(), a);
    }
}

/// The workers of one connection, by session ID.
#[derive(Debug)]
pub struct MinerList {
    miners: Vec<(SessionID, Miner)>,
}

impl MinerList {
    /// The workers, by the value of their session ID.
    pub closed spec fn workers(&self) -> Map<u32, Miner> {
        Map::new(|k: u32| lookup(self.miners@, k) is Some, |k: u32| lookup(self.miners@, k)->0)
    }

    pub closed spec fn wf(&self) -> bool {
        &&& unique_ids(self.miners@)
        &&& forall|i: int| 0 <= i < self.miners@.len() ==> (#[trigger] self.miners@[i]).1.wf()
    }

    pub fn new() -> (r: MinerList)
        ensures
            r.wf(),
            r.workers() == Map::<u32, Miner>::empty(),
    {
        let r = MinerList { miners: Vec::new() };
        proof {
            assert(r.workers() =~= Map::<u32, Miner>::empty());
        }
        r
    }

    fn find(&self, id: SessionID) -> (r: Option<usize>)
        requires
            self.wf(),
        ensures
            r is Some ==> r->0 < self.miners@.len() && self.miners@[r->0 as int].0@ == id@
                && self.workers().contains_key(id@) && self.workers()[id@]
                == self.miners@[r->0 as int].1,
            r is None ==> !self.workers().contains_key(id@),
    {
        let mut i: usize = 0;
        while i < self.miners.len()
            invariant
                self.wf(),
                i <= self.miners@.len(),
                forall|j: int| 0 <= j < i ==> (#[trigger] self.miners@[j]).0@ != id@,
            decreases self.miners@.len() - i,
        {
            if self.miners[i].0.as_u32() == id.as_u32() {
                proof {
                    lemma_lookup_at(self.miners@, i as int);
                }
                return Some(i);
            }
            i = i + 1;
        }
        proof {
            lemma_lookup_absent(self.miners@, id@);
        }
        None
    }

    /// Takes out the entry at `i`, leaving the others in place.
    fn take_at(&mut self, i: usize) -> (r: (SessionID, Miner))
        requires
            old(self).wf(),
            i < old(self).miners@.len(),
        ensures
            final(self).wf(),
            r == old(self).miners@[i as int],
            final(self).workers() == old(self).workers().remove(r.0@),
            r.1.wf(),
    {
        let ghost before = self.miners@;
        proof {
            assert forall|k: u32| #[trigger]
                lookup(before.remove(i as int), k) == if k == before[i as int].0@ {
                    None
                } else {
                    lookup(before, k)
                } by {
                lemma_lookup_remove(before, i as int, k);
            }
        }
        let r = self.miners.remove(i);
        proof {
            assert forall|a: int| 0 <= a < self.miners@.len() implies (
            #[trigger] self.miners@[a]).1.wf() by {
                if a >= i {
                    assert(self.miners@[a] == before[a + 1]);
                }
            }
            assert forall|a: int, b: int| 0 <= a < b < self.miners@.len() implies (
            #[trigger] self.miners@[a]).0@ != (#[trigger] self.miners@[b]).0@ by {
                let a0 = if a < i { a } else { a + 1 };
                let b0 = if b < i { b } else { b + 1 };
                assert(self.miners@[a] == before[a0] && self.miners@[b] == before[b0]);
            }
            assert(self.workers() =~= old(self).workers().remove(r.0@));
        }
        r
    }

    /// Adds an entry whose ID is not in the list.
    fn put(&mut self, id: SessionID, miner: Miner)
        requires
            old(self).wf(),
            !old(self).workers().contains_key(id@),
            miner.wf(),
        ensures
            final(self).wf(),
            final(self).workers() == old(self).workers().insert(id@, miner),
    {
        let ghost before = self.miners@;
        self.miners.push((id, miner));
        proof {
            assert forall|k: u32| #[trigger]
                lookup(self.miners@, k) == if k == id@ {
                    Some(miner)
                } else {
                    lookup(before, k)
                } by {
                lemma_lookup_push(before, (id, miner), k);
            }
            assert forall|a: int| 0 <= a < self.miners@.len() implies (
            #[trigger] self.miners@[a]).1.wf() by {
                if a < before.len() {
                    assert(self.miners@[a] == before[a]);
                }
            }
            assert forall|a: int, b: int| 0 <= a < b < self.miners@.len() implies (
            #[trigger] self.miners@[a]).0@ != (#[trigger] self.miners@[b]).0@ by {
                if b == before.len() {
                    assert(self.miners@[a] == before[a]);
                    if before[a].0@ == id@ {
                        lemma_lookup_some_index(before, a);
                    }
                } else {
                    assert(self.miners@[a] == before[a] && self.miners@[b] == before[b]);
                }
            }
            assert(self.workers() =~= old(self).workers().insert(id@, miner));
        }
    }

    /// Records `miner` under `id`, replacing any worker there.
    pub fn add_miner(&mut self, id: SessionID, miner: Miner)
        requires
            old(self).wf(),
            miner.wf(),
        ensures
            final(self).wf(),
            final(self).workers() == old(self).workers().insert(id@, miner),
    {
        match self.find(id) {
            Some(i) => {
                let _ = self.take_at(i);
            },
            None => {},
        }
        self.put(id, miner);
        proof {
            assert(self.workers() =~= old(self).workers().insert(id@, miner));
        }
    }

    /// Takes the worker under `id` out of the list, if there is one.
    pub fn remove_miner(&mut self, id: SessionID) -> (r: Option<(SessionID, Miner)>)
        requires
            old(self).wf(),
        ensures
            final(self).wf(),
            final(self).workers() == old(self).workers().remove(id@),
            r is None <==> !old(self).workers().contains_key(id@),
            r is Some ==> (r->0).0@ == id@ && (r->0).1 == old(self).workers()[id@] && (r->0).1.wf(),
    {
        match self.find(id) {
            Some(i) => Some(self.take_at(i)),
            None => {
                proof {
                    assert(self.workers() =~= old(self).workers().remove(id@));
                }
                None
            },
        }
    }

    pub fn get_miner_by_id(&self, id: SessionID) -> (r: Option<&Miner>)
        requires
            self.wf(),
        ensures
            r is None <==> !self.workers().contains_key(id@),
            r is Some ==> *r->0 == self.workers()[id@],
    {
        match self.find(id) {
            Some(i) => Some(&self.miners[i].1),
            None => None,
        }
    }

    /// Replaces the worker under `id` when there is one.
    pub fn update_miner_by_session_id(&mut self, id: SessionID, miner: Miner)
        requires
            old(self).wf(),
            miner.wf(),
        ensures
            final(self).wf(),
            final(self).workers() == if old(self).workers().contains_key(id@) {
                old(self).workers().insert(id@, miner)
            } else {
                old(self).workers()
            },
    {
        if self.find(id).is_some() {
            self.add_miner(id, miner);
        }
    }

    pub fn len(&self) -> (r: usize)
        requires
            self.wf(),
        ensures
            r == self.workers().len(),
    {
        proof {
            lemma_workers_len(self.miners@);
        }
        self.miners.len()
    }

    /// The difficulties of the worker under `id`.
    pub fn difficulties(&self, id: SessionID) -> (r: Option<Difficulties>)
        requires
            self.wf(),
        ensures
            r is None <==> !self.workers().contains_key(id@),
            r is Some ==> r->0 == self.workers()[id@].spec_difficulties(),
    {
        match self.find(id) {
            Some(i) => Some(self.miners[i].1.difficulties()),
            None => None,
        }
    }

    /// Forces the difficulty of the worker under `id`, when there is one.
    pub fn set_difficulty(&mut self, id: SessionID, difficulty: Difficulty)
        requires
            old(self).wf(),
        ensures
            final(self).wf(),
            final(self).workers().dom() == old(self).workers().dom(),
            forall|k: u32|
                k != id@ && old(self).workers().contains_key(k) ==> final(self).workers()[k]
                    == old(self).workers()[k],
            old(self).workers().contains_key(id@) ==> {
                let (a, b) = (old(self).workers()[id@], final(self).workers()[id@]);
                &&& b.spec_difficulties().current == difficulty
                &&& b.spec_difficulties().previous == a.spec_difficulties().current
                &&& b.spec_difficulties().next.value() == 0
                &&& b.spec_stats() == a.spec_stats()
                &&& b.spec_session_id() == a.spec_session_id()
            },
    {
        if let Some(i) = self.find(id) {
            let (k, mut m) = self.take_at(i);
            m.set_difficulty(difficulty);
            self.put(k, m);
            proof {
                assert(self.workers().dom() =~= old(self).workers().dom());
            }
        }
    }

    /// Makes the pending difficulty of the worker under `id` current and
    /// returns it; `None` when there is no such worker or nothing pending.
    pub fn update_difficulty(&mut self, id: SessionID) -> (r: Option<Difficulty>)
        requires
            old(self).wf(),
        ensures
            final(self).wf(),
            final(self).workers().dom() == old(self).workers().dom(),
            forall|k: u32|
                k != id@ && old(self).workers().contains_key(k) ==> final(self).workers()[k]
                    == old(self).workers()[k],
            !old(self).workers().contains_key(id@) ==> r is None,
            old(self).workers().contains_key(id@) ==> {
                let (a, b) = (old(self).workers()[id@], final(self).workers()[id@]);
                &&& a.spec_difficulties().next.value() == 0 ==> r is None
                    && b.spec_difficulties() == a.spec_difficulties()
                &&& a.spec_difficulties().next.value() != 0 ==> {
                    &&& r == Some(a.spec_difficulties().next)
                    &&& b.spec_difficulties().current == a.spec_difficulties().next
                    &&& b.spec_difficulties().previous == a.spec_difficulties().current
                    &&& b.spec_difficulties().next.value() == 0
                }
                &&& b.spec_stats() == a.spec_stats()
            },
    {
        match self.find(id) {
            Some(i) => {
                let (k, mut m) = self.take_at(i);
                let r = m.update_difficulty();
                self.put(k, m);
                proof {
                    assert(self.workers().dom() =~= old(self).workers().dom());
                }
                r
            },
            None => None,
        }
    }

    /// Counts a share of `kind` at `now` for the worker under `id`; returns
    /// whether there was one.
    pub fn record_share_at(&mut self, id: SessionID, kind: ShareKind, now: u128) -> (r: bool)
        requires
            old(self).wf(),
        ensures
            final(self).wf(),
            r == old(self).workers().contains_key(id@),
            final(self).workers().dom() == old(self).workers().dom(),
            forall|k: u32|
                k != id@ && old(self).workers().contains_key(k) ==> final(self).workers()[k]
                    == old(self).workers()[k],
            r ==> share_recorded(old(self).workers()[id@], final(self).workers()[id@], kind, now),
    {
        match self.find(id) {
            Some(i) => {
                let (k, mut m) = self.take_at(i);
                match kind {
                    ShareKind::Valid => m.valid_share_at(now),
                    ShareKind::Stale => m.stale_share_at(now),
                    ShareKind::Rejected => m.rejected_share_at(now),
                }
                self.put(k, m);
                proof {
                    assert(self.workers().dom() =~= old(self).workers().dom());
                }
                true
            },
            None => false,
        }
    }
}

proof fn lemma_workers_len(s: Seq<(SessionID, Miner)>)
    requires
        unique_ids(s),
    ensures
        Map::new(|k: u32| lookup(s, k) is Some, |k: u32| lookup(s, k)->0).len() == s.len(),
        Map::new(|k: u32| lookup(s, k) is Some, |k: u32| lookup(s, k)->0).dom().finite(),
    decreases s.len(),
{
    let m = Map::new(|k: u32| lookup(s, k) is Some, |k: u32| lookup(s, k)->0);
    if s.len() == 0 {
        assert(m.dom() =~= Set::<u32>::empty());
    } else {
        let t = s.drop_last();
        assert(unique_ids(t)) by {
            assert forall|i: int, j: int| 0 <= i < j < t.len() implies (#[trigger] t[i]).0@ != (
            #[trigger] t[j]).0@ by {
                assert(t[i] == s[i] && t[j] == s[j]);
            }
        }
        lemma_workers_len(t);
        let mt = Map::new(|k: u32| lookup(t, k) is Some, |k: u32| lookup(t, k)->0);
        assert forall|i: int| 0 <= i < t.len() implies (#[trigger] t[i]).0@ != s.last().0@ by {
            assert(t[i] == s[i]);
        }
        lemma_lookup_absent(t, s.last().0@);
        assert(m.dom() =~= mt.dom().insert(s.last().0@));
    }
}

} // verus!
