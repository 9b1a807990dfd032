use vstd::prelude::*;
use bit_set::BitSet;
use crate::error::Error;
use crate::session_id::SessionID;

verus! {

#[verifier::external_type_specification]
#[verifier::external_body]
#[verifier::reject_recursive_types(B)]
pub struct ExBitSet<B>(bit_set::BitSet<B>);

/// The members of a bit set.
pub uninterp spec fn bitset_members(s: BitSet) -> Set<nat>;

/// Relies on bit_set::BitSet::new: a set with no member.
#[verifier::external_body]
fn bitset_new() -> (r: BitSet)
    ensures
        bitset_members(r) == Set::<nat>::empty(),
{
    BitSet::new()
}

/// Relies on bit_set::BitSet::contains: whether `v` is a member.
#[verifier::external_body]
fn bitset_contains(s: &BitSet, v: usize) -> (r: bool)
    ensures
        r == bitset_members(*s).contains(v as nat),
{
    s.contains(v)
}

/// Relies on bit_set::BitSet::insert: adds `v`, growing the bits as needed.
#[verifier::external_body]
fn bitset_insert(s: &mut BitSet, v: usize)
    requires
        v < usize::MAX,
    ensures
        bitset_members(*final(s)) == bitset_members(*old(s)).insert(v as nat),
{
    s.insert(v);
}

/// Relies on bit_set::BitSet::remove: takes `v` out.
#[verifier::external_body]
fn bitset_remove(s: &mut BitSet, v: usize)
    ensures
        bitset_members(*final(s)) == bitset_members(*old(s)).remove(v as nat),
{
    s.remove(v);
}

/// The largest session index.
pub const MAX_SESSION_INDEX_SERVER: u32 = 0x00FF_FFFE;

/// Number of session indexes, `0..=MAX_SESSION_INDEX_SERVER`.
pub open spec fn index_space() -> nat {
    MAX_SESSION_INDEX_SERVER as nat + 1
}

/// The indexes `0..n`.
pub open spec fn indexes_below(n: nat) -> Set<nat> {
    Set::new(|i: nat| i < n)
}

/// Steps from `from` forward to `to`, wrapping after the largest index.
pub open spec fn cyclic_distance(from: nat, to: nat) -> nat {
    ((to + index_space() - from) % (index_space() as int)) as nat
}

/// `j` is the first index not in `used` when scanning forward from `cursor`
/// and wrapping after the largest index.
pub open spec fn first_free_from(used: Set<nat>, cursor: nat, j: nat) -> bool {
    &&& j < index_space()
    &&& !used.contains(j)
    &&& forall|k: nat|
        k < index_space() && #[trigger] cyclic_distance(cursor, k) < cyclic_distance(cursor, j)
            ==> used.contains(k)
}

/// The session ID for index `idx` of server `server_id`.
pub open spec fn compose_id(server_id: u8, idx: nat) -> nat {
    server_id as nat * 0x100_0000 + idx
}

/// Hands out session IDs: the server's prefix over a dense 24-bit index.
pub struct IDManager {
    server_id: u8,
    count: u32,
    idx: u32,
    session_ids: BitSet,
}

impl IDManager {
    /// The indexes in use.
    pub closed spec fn allocated(&self) -> Set<nat> {
        bitset_members(self.session_ids)
    }

    /// Where the next scan starts.
    pub closed spec fn cursor(&self) -> nat {
        self.idx as nat
    }

    pub closed spec fn prefix(&self) -> u8 {
        self.server_id
    }

    pub closed spec fn wf(&self) -> bool {
        &&& self.allocated().subset_of(indexes_below(index_space()))
        &&& self.allocated().finite()
        &&& self.count == self.allocated().len()
        &&& self.idx <= MAX_SESSION_INDEX_SERVER
    }

    /// What well-formedness gives a caller: the indexes in use are a
    /// finite set within the index space.
    pub proof fn lemma_wf_bounds(&self)
        requires
            self.wf(),
        ensures
            self.allocated().finite(),
            self.allocated().subset_of(indexes_below(index_space())),
            self.allocated().len() <= index_space(),
            self.cursor() < index_space(),
    {
        lemma_len_bounded(self.allocated());
    }

    pub fn new(server_id: u8) -> (r: IDManager)
        ensures
            r.wf(),
            r.allocated() == Set::<nat>::empty(),
            r.cursor() == 0,
            r.prefix() == server_id,
    {
        IDManager { server_id, count: 0, idx: 0, session_ids: bitset_new() }
    }

    /// Whether every index is in use.
    fn is_full(&self) -> (r: bool)
        requires
            self.wf(),
        ensures
            r == (self.allocated().len() == index_space()),
    {
        proof {
            lemma_len_bounded(self.allocated());
        }
        self.count > MAX_SESSION_INDEX_SERVER
    }

    /// Takes the first free index from the cursor on, wrapping after the
    /// largest, and returns it under this server's prefix; fails only when
    /// every index is in use.
    pub fn allocate_session_id(&mut self) -> (r: Result<SessionID, Error>)
        requires
            old(self).wf(),
        ensures
            final(self).wf(),
            final(self).prefix() == old(self).prefix(),
            old(self).allocated().len() == index_space() <==> r is Err,
            r is Err ==> r->Err_0 is SessionIDsExhausted && *final(self) == *old(self),
            r is Ok ==> {
                let j = final(self).cursor();
                &&& first_free_from(old(self).allocated(), old(self).cursor(), j)
                &&& final(self).allocated() == old(self).allocated().insert(j)
                &&& r->Ok_0@ == compose_id(old(self).prefix(), j)
                &&& allocation_step(
                    old(self).allocated(),
                    old(self).cursor(),
                    final(self).allocated(),
                    final(self).cursor(),
                )
            },
    {
        if self.is_full() {
            return Err(Error::SessionIDsExhausted);
        }
        let ghost used = self.allocated();
        let ghost start = self.idx as nat;
        proof {
            lemma_len_bounded(used);
            lemma_free_exists(used);
        }
        let ghost free = choose|f: nat| f < index_space() && !used.contains(f);
        let mut idx: u32 = self.idx;
        while bitset_contains(&self.session_ids, idx as usize)
            invariant
                self.wf(),
                self.allocated() == used,
                self.idx == start,
                idx <= MAX_SESSION_INDEX_SERVER,
                free < index_space(),
                !used.contains(free),
                cyclic_distance(start, idx as nat) <= cyclic_distance(start, free),
                forall|k: nat|
                    k < index_space() && #[trigger] cyclic_distance(start, k) < cyclic_distance(
                        start,
                        idx as nat,
                    ) ==> used.contains(k),
            decreases cyclic_distance(idx as nat, free),
        {
            let ghost prev = idx as nat;
            idx = idx + 1;
            if idx > MAX_SESSION_INDEX_SERVER {
                idx = 0;
            }
            proof {
                lemma_step(start, prev, idx as nat, free);
                assert forall|k: nat|
                    k < index_space() && #[trigger] cyclic_distance(start, k) < cyclic_distance(
                        start,
                        idx as nat,
                    ) implies used.contains(k) by {
                    if cyclic_distance(start, k) == cyclic_distance(start, prev) {
                        lemma_distance_injective(start, k, prev);
                    }
                }
            }
        }
        bitset_insert(&mut self.session_ids, idx as usize);
        proof {
            lemma_len_bounded(used);
            assert(used.insert(idx as nat).subset_of(indexes_below(index_space())));
        }
        self.count = self.count + 1;
        self.idx = idx;
        let server: u32 = self.server_id as u32;
        let session_id: u32 = (server << 24) | idx;
        proof {
            assert(session_id == server * 0x100_0000 + idx) by (bit_vector)
                requires
                    server < 256,
                    idx < 0x100_0000,
                    session_id == (server << 24) | idx,
            ;
        }
        Ok(SessionID::from(session_id))
    }

    /// Gives back the index of `session_id`, the low 24 bits; an index not
    /// in use is left as it is.
    pub fn remove_session_id(&mut self, session_id: SessionID)
        requires
            old(self).wf(),
        ensures
            final(self).wf(),
            final(self).prefix() == old(self).prefix(),
            final(self).cursor() == old(self).cursor(),
            final(self).allocated() == old(self).allocated().remove(
                (session_id@ % 0x100_0000) as nat,
            ),
            old(self).allocated().contains((session_id@ % 0x100_0000) as nat) ==> {
                &&& final(self).allocated().len() + 1 == old(self).allocated().len()
                &&& final(self).allocated().len() < index_space()
            },
    {
        let v: u32 = session_id.as_u32();
        let idx: u32 = v & 0x00FF_FFFF;
        proof {
            assert(idx == v % 0x100_0000) by (bit_vector)
                requires
                    idx == v & 0x00FF_FFFF,
            ;
        }
        if bitset_contains(&self.session_ids, idx as usize) {
            proof {
                lemma_len_bounded(self.allocated());
            }
            bitset_remove(&mut self.session_ids, idx as usize);
            self.count = self.count - 1;
        } else {
            proof {
                assert(self.allocated().remove(idx as nat) =~= self.allocated());
            }
        }
    }
}

proof fn lemma_len_bounded(used: Set<nat>)
    requires
        used.subset_of(indexes_below(index_space())),
    ensures
        used.finite(),
        used.len() <= index_space(),
{
    lemma_indexes_below_len(index_space());
    vstd::set_lib::lemma_len_subset(used, indexes_below(index_space()));
}

proof fn lemma_indexes_below_len(n: nat)
    ensures
        indexes_below(n).finite(),
        indexes_below(n).len() == n,
    decreases n,
{
    if n == 0 {
        assert(indexes_below(0) =~= Set::<nat>::empty());
    } else {
        lemma_indexes_below_len((n - 1) as nat);
        assert(indexes_below(n) =~= indexes_below((n - 1) as nat).insert((n - 1) as nat));
    }
}

proof fn lemma_free_exists(used: Set<nat>)
    requires
        used.subset_of(indexes_below(index_space())),
        used.finite(),
        used.len() < index_space(),
    ensures
        exists|f: nat| f < index_space() && !used.contains(f),
{
    if forall|f: nat| f < index_space() ==> used.contains(f) {
        assert(indexes_below(index_space()).subset_of(used));
        lemma_indexes_below_len(index_space());
        vstd::set_lib::lemma_len_subset(indexes_below(index_space()), used);
    }
}

proof fn lemma_step(start: nat, prev: nat, next: nat, free: nat)
    requires
        start < index_space(),
        prev < index_space(),
        free < index_space(),
        prev != free,
        next == if prev + 1 > MAX_SESSION_INDEX_SERVER { 0 } else { prev + 1 },
        cyclic_distance(start, prev) <= cyclic_distance(start, free),
    ensures
        cyclic_distance(start, next) == cyclic_distance(start, prev) + 1,
        cyclic_distance(start, next) <= cyclic_distance(start, free),
        cyclic_distance(next, free) < cyclic_distance(prev, free),
{
    let m = index_space() as int;
    if cyclic_distance(start, prev) == cyclic_distance(start, free) {
        lemma_distance_injective(start, prev, free);
    }
    assert(cyclic_distance(start, next) == cyclic_distance(start, prev) + 1) by {
        if prev + 1 > MAX_SESSION_INDEX_SERVER {
            assert(prev == m - 1);
        }
    }
    assert(cyclic_distance(next, free) < cyclic_distance(prev, free)) by {
        if prev + 1 > MAX_SESSION_INDEX_SERVER {
            assert(prev == m - 1);
        }
    }
}

proof fn lemma_distance_injective(start: nat, a: nat, b: nat)
    requires
        start < index_space(),
        a < index_space(),
        b < index_space(),
        cyclic_distance(start, a) == cyclic_distance(start, b),
    ensures
        a == b,
{
}

/// A newly allocated ID differs from the ID of every session still live:
/// the index is free, and distinct indexes under one prefix give distinct
/// IDs.
pub proof fn lemma_ids_distinct(prefix: u8, used: Set<nat>, cursor: nat, j: nat)
    requires
        used.subset_of(indexes_below(index_space())),
        first_free_from(used, cursor, j),
    ensures
        forall|i: nat| used.contains(i) ==> compose_id(prefix, i) != compose_id(prefix, j),
{
}

/// The scan never passes over a free index: whatever index is free when
/// allocation starts, the one taken lies no further from the cursor. So a
/// released index is taken again once the allocations after its release
/// have gone round to it.
pub proof fn lemma_free_index_not_skipped(used: Set<nat>, cursor: nat, j: nat, free: nat)
    requires
        first_free_from(used, cursor, j),
        free < index_space(),
        !used.contains(free),
    ensures
        cyclic_distance(cursor, j) <= cyclic_distance(cursor, free),
{
}

/// While an index `j` stays free, each allocation from an index in use
/// that takes another index brings the cursor strictly closer to `j`; so
/// `j` is taken again within `index_space() - 1` allocations.
pub proof fn lemma_reuse_approaches(used: Set<nat>, cursor: nat, f: nat, j: nat)
    requires
        cursor < index_space(),
        used.contains(cursor),
        j < index_space(),
        !used.contains(j),
        first_free_from(used, cursor, f),
        f != j,
    ensures
        cyclic_distance(f, j) < cyclic_distance(cursor, j),
        cyclic_distance(cursor, j) < index_space(),
{
    lemma_free_index_not_skipped(used, cursor, f, j);
    if cyclic_distance(cursor, f) == cyclic_distance(cursor, j) {
        lemma_distance_injective(cursor, f, j);
    }
    let m = index_space() as int;
    let df = cyclic_distance(cursor, f) as int;
    let dj = cyclic_distance(cursor, j) as int;
    assert(df > 0) by {
        if df == 0 {
            lemma_distance_injective(cursor, f, cursor);
        }
    }
    assert(cyclic_distance(f, j) as int == dj - df) by {
        assert(0 <= df < dj < m);
        assert((f + m - cursor) % m == df);
        assert((j + m - cursor) % m == dj);
    }
}

/// One allocation: from the indexes `used` and the cursor, the scan takes
/// `next`, which becomes the cursor.
pub open spec fn allocation_step(used: Set<nat>, cursor: nat, used2: Set<nat>, next: nat) -> bool {
    first_free_from(used, cursor, next) && used2 == used.insert(next)
}

/// A run of allocations, each state holding the indexes in use and the
/// cursor, that starts from a cursor in use.
pub open spec fn allocation_run(states: Seq<(Set<nat>, nat)>) -> bool {
    &&& states.len() >= 1
    &&& states[0].1 < index_space()
    &&& states[0].0.contains(states[0].1)
    &&& forall|i: int|
        0 <= i < states.len() - 1 ==> allocation_step(
            #[trigger] states[i].0,
            states[i].1,
            states[i + 1].0,
            states[i + 1].1,
        )
}

proof fn lemma_run_progress(states: Seq<(Set<nat>, nat)>, j: nat)
    requires
        allocation_run(states),
        j < index_space(),
        !states[0].0.contains(j),
        forall|i: int| 1 <= i < states.len() ==> (#[trigger] states[i]).1 != j,
    ensures
        cyclic_distance(states.last().1, j) + states.len() - 1 <= cyclic_distance(states[0].1, j),
        states.last().0.contains(states.last().1),
        !states.last().0.contains(j),
        states.last().1 < index_space(),
    decreases states.len(),
{
    if states.len() > 1 {
        let pre = states.drop_last();
        assert forall|i: int| 0 <= i < pre.len() - 1 implies allocation_step(
            #[trigger] pre[i].0,
            pre[i].1,
            pre[i + 1].0,
            pre[i + 1].1,
        ) by {
            assert(pre[i] == states[i] && pre[i + 1] == states[i + 1]);
        }
        assert forall|i: int| 1 <= i < pre.len() implies (#[trigger] pre[i]).1 != j by {
            assert(pre[i] == states[i]);
        }
        lemma_run_progress(pre, j);
        let n = states.len() - 1;
        let p = states[n - 1];
        let q = states[n];
        assert(pre.last() == p);
        assert(allocation_step(states[n - 1].0, p.1, q.0, q.1));
        lemma_reuse_approaches(p.0, p.1, q.1, j);
    }
}

/// A released index `j` is taken again within `index_space() - 1`
/// allocations: a run of allocations that all take other indexes, while
/// `j` stays free, has fewer steps than the distance from the cursor to
/// `j`, which is below `index_space() - 1`.
pub proof fn lemma_reuse_bound(states: Seq<(Set<nat>, nat)>, j: nat)
    requires
        allocation_run(states),
        j < index_space(),
        !states[0].0.contains(j),
        forall|i: int| 1 <= i < states.len() ==> (#[trigger] states[i]).1 != j,
    ensures
        states.len() - 1 < cyclic_distance(states[0].1, j),
        cyclic_distance(states[0].1, j) < index_space(),
{
    lemma_run_progress(states, j);
    if cyclic_distance(states.last().1, j) == 0 {
        assert(cyclic_distance(j, j) == 0);
        lemma_distance_injective(j, states.last().1, j);
    }
}

/// When every index but `j` is in use, the next allocation takes `j`,
/// wherever the cursor stands.
pub proof fn lemma_sole_free_index_taken(used: Set<nat>, cursor: nat, j: nat)
    requires
        cursor < index_space(),
        j < index_space(),
        used == indexes_below(index_space()).remove(j),
    ensures
        first_free_from(used, cursor, j),
        forall|i: nat| first_free_from(used, cursor, i) ==> i == j,
{
}

} // verus!
