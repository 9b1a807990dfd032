use vstd::prelude::*;

verus! {

/// Number of intervals the buffer keeps.
pub const VARDIFF_SLOTS: usize = 90;

/// The sum of the values of `s`.
pub open spec fn seq_sum(s: Seq<u64>) -> int
    decreases s.len(),
{
    if s.len() == 0 {
        0
    } else {
        seq_sum(s.drop_last()) + s.last()
    }
}

pub proof fn lemma_seq_sum_bound(s: Seq<u64>)
    ensures
        0 <= seq_sum(s) <= s.len() * (u64::MAX as int),
    decreases s.len(),
{
    if s.len() > 0 {
        lemma_seq_sum_bound(s.drop_last());
    }
}

/// What a buffer holds, as plain values.
pub ghost struct BufferModel {
    pub data: Seq<u64>,
    pub pos: nat,
    pub used: nat,
}

impl BufferModel {
    /// The intervals that count towards the average.
    pub open spec fn window(self) -> Seq<u64> {
        self.data.subrange(0, self.used as int)
    }

    /// The buffer after `time` is recorded.
    pub open spec fn appended(self, time: u64) -> BufferModel {
        BufferModel {
            data: self.data.update(self.pos as int, time),
            pos: (self.pos + 1) % (VARDIFF_SLOTS as nat),
            used: if self.used < VARDIFF_SLOTS { self.used + 1 } else { self.used },
        }
    }

    /// The buffer after a reset: the slots are kept, none of them counts.
    pub open spec fn cleared(self) -> BufferModel {
        BufferModel { data: self.data, pos: 0, used: 0 }
    }
}

/// A ring of the last inter-share intervals, in milliseconds.
#[derive(Debug)]
pub struct VarDiffBuffer {
    pos: usize,
    used: usize,
    data: Vec<u64>,
}

impl View for VarDiffBuffer {
    type V = BufferModel;

    closed spec fn view(&self) -> BufferModel {
        BufferModel { data: self.data@, pos: self.pos as nat, used: self.used as nat }
    }
}

impl VarDiffBuffer {
    /// The ring's shape: ninety slots, a cursor on one of them, and while the
    /// ring is not full the cursor sits just after the last value.
    pub open spec fn wf(&self) -> bool {
        &&& self@.data.len() == VARDIFF_SLOTS
        &&& self@.pos < VARDIFF_SLOTS
        &&& self@.used <= VARDIFF_SLOTS
        &&& self@.used < VARDIFF_SLOTS ==> self@.pos == self@.used
    }

    pub fn new() -> (r: VarDiffBuffer)
        ensures
            r.wf(),
            r@.used == 0,
            r@.pos == 0,
    {
        let mut data: Vec<u64> = Vec::new();
        let mut i: usize = 0;
        while i < VARDIFF_SLOTS
            invariant
                i <= VARDIFF_SLOTS,
                data@.len() == i,
            decreases VARDIFF_SLOTS - i,
        {
            data.push(0);
            i = i + 1;
        }
        VarDiffBuffer { pos: 0, used: 0, data }
    }

    /// Records one interval, overwriting the oldest once the ring is full.
    pub fn append(&mut self, time: u64)
        requires
            old(self).wf(),
        ensures
            final(self).wf(),
            final(self)@ == old(self)@.appended(time),
    {
        self.data.set(self.pos, time);
        self.pos = (self.pos + 1) % VARDIFF_SLOTS;
        if self.used < VARDIFF_SLOTS {
            self.used = self.used + 1;
        }
    }

    pub fn reset(&mut self)
        requires
            old(self).wf(),
        ensures
            final(self).wf(),
            final(self)@ == old(self)@.cleared(),
    {
        self.pos = 0;
        self.used = 0;
    }

    /// How many intervals count towards the average.
    pub fn used(&self) -> (r: usize)
        ensures
            r == self@.used,
    {
        self.used
    }

    /// The sum of the intervals that count.
    pub fn sum(&self) -> (r: u128)
        requires
            self.wf(),
        ensures
            r == seq_sum(self@.window()),
    {
        let mut total: u128 = 0;
        let mut i: usize = 0;
        while i < self.used
            invariant
                self.wf(),
                i <= self.used,
                total == seq_sum(self@.data.subrange(0, i as int)),
            decreases self.used - i,
        {
            proof {
                lemma_seq_sum_bound(self@.data.subrange(0, i as int));
                assert(self@.data.subrange(0, i + 1).drop_last() =~= self@.data.subrange(0, i as int));
            }
            total = total + self.data[i] as u128;
            i = i + 1;
        }
        total
    }

    /// The mean interval rounded down, over the intervals that count; zero
    /// when none does.
    pub fn avg(&self) -> (r: u64)
        requires
            self.wf(),
        ensures
            self@.used == 0 ==> r == 0,
            self@.used > 0 ==> r == seq_sum(self@.window()) / (self@.used as int),
    {
        if self.used == 0 {
            return 0;
        }
        let total = self.sum();
        proof {
            lemma_seq_sum_bound(self@.window());
            assert(total / (self.used as u128) <= u64::MAX) by (nonlinear_arith)
                requires
                    total <= self.used * (u64::MAX as int),
                    self.used >= 1,
            ;
        }
        (total / (self.used as u128)) as u64
    }
}

/// The intervals that count sum to at most ninety times the largest slot.
pub proof fn lemma_window_sum_bound(b: BufferModel)
    requires
        b.data.len() == VARDIFF_SLOTS,
        b.used <= VARDIFF_SLOTS,
    ensures
        0 <= seq_sum(b.window()) <= VARDIFF_SLOTS * (u64::MAX as int),
{
    lemma_seq_sum_bound(b.window());
}

} // verus!
