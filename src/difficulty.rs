use vstd::prelude::*;

verus! {

/// Largest difficulty a value may hold: two to the sixty-third.
pub const MAX_DIFF: u64 = 0x8000_0000_0000_0000;

/// Two to the power `k`.
pub open spec fn exp2(k: nat) -> nat
    decreases k,
{
    if k == 0 {
        1
    } else {
        2 * exp2((k - 1) as nat)
    }
}

/// `n` is a power of two.
pub open spec fn is_pow2(n: nat) -> bool {
    exists|k: nat| exp2(k) == n
}

/// The largest power of two not above `n` (zero for zero).
pub open spec fn floor_pow2(n: nat) -> nat
    decreases n,
{
    if n <= 1 {
        n
    } else {
        2 * floor_pow2(n / 2)
    }
}

/// What a raw difficulty is stored as: rounded down to a power of two and
/// capped at `MAX_DIFF`; zero stays zero.
pub open spec fn round_difficulty(diff: nat) -> nat {
    if diff >= MAX_DIFF {
        MAX_DIFF as nat
    } else {
        floor_pow2(diff)
    }
}

/// A value that a `Difficulty` may hold.
pub open spec fn valid_difficulty(v: nat) -> bool {
    v == 0 || (is_pow2(v) && 1 <= v <= MAX_DIFF)
}

pub proof fn lemma_exp2_positive(k: nat)
    ensures
        exp2(k) >= 1,
    decreases k,
{
    if k > 0 {
        lemma_exp2_positive((k - 1) as nat);
    }
}

pub proof fn lemma_floor_pow2_bounds(n: nat)
    requires
        n >= 1,
    ensures
        is_pow2(floor_pow2(n)),
        1 <= floor_pow2(n) <= n < 2 * floor_pow2(n),
    decreases n,
{
    if n == 1 {
        assert(exp2(0) == 1);
    } else {
        lemma_floor_pow2_bounds(n / 2);
        let k = choose|k: nat| exp2(k) == floor_pow2(n / 2);
        assert(exp2(k + 1) == 2 * exp2(k));
        assert(exp2((k + 1) as nat) == floor_pow2(n));
    }
}

pub proof fn lemma_floor_pow2_of_exp2(k: nat)
    ensures
        floor_pow2(exp2(k)) == exp2(k),
    decreases k,
{
    if k > 0 {
        lemma_floor_pow2_of_exp2((k - 1) as nat);
        lemma_exp2_positive((k - 1) as nat);
        let e = exp2((k - 1) as nat);
        assert(exp2(k) / 2 == e);
    }
}

pub proof fn lemma_floor_pow2_monotone(a: nat, b: nat)
    requires
        a <= b,
    ensures
        floor_pow2(a) <= floor_pow2(b),
    decreases b,
{
    if a > 1 {
        lemma_floor_pow2_monotone(a / 2, b / 2);
    } else if b >= 1 {
        lemma_floor_pow2_bounds(b);
    }
}

pub proof fn lemma_max_diff_pow2()
    ensures
        exp2(63) == MAX_DIFF,
        is_pow2(MAX_DIFF as nat),
{
    reveal_with_fuel(exp2, 64);
    assert(exp2(63) == MAX_DIFF);
}

/// Every rounded value is one a `Difficulty` may hold.
pub proof fn lemma_round_valid(diff: nat)
    ensures
        valid_difficulty(round_difficulty(diff)),
{
    lemma_max_diff_pow2();
    if diff >= 1 && diff < MAX_DIFF {
        lemma_floor_pow2_bounds(diff);
    }
}

/// Rounding leaves a value that a `Difficulty` may hold unchanged.
pub proof fn lemma_round_fixed(v: nat)
    requires
        valid_difficulty(v),
    ensures
        round_difficulty(v) == v,
{
    if v != 0 && v < MAX_DIFF {
        let k = choose|k: nat| exp2(k) == v;
        lemma_floor_pow2_of_exp2(k);
    }
}

/// Rounds `diff` down to a power of two, capped at `MAX_DIFF`; zero stays zero.
pub fn format_difficulty(diff: u64) -> (r: u64)
    ensures
        r == round_difficulty(diff as nat),
        valid_difficulty(r as nat),
{
    proof {
        lemma_round_valid(diff as nat);
    }
    if diff >= MAX_DIFF {
        return MAX_DIFF;
    }
    if diff == 0 {
        return 0;
    }
    let mut n: u64 = diff;
    let mut p: u64 = 1;
    while n > 1
        invariant
            1 <= n <= diff,
            p >= 1,
            p * n <= diff,
            p * floor_pow2(n as nat) == floor_pow2(diff as nat),
        decreases n,
    {
        let half: u64 = n / 2;
        proof {
            assert(floor_pow2(n as nat) == 2 * floor_pow2(half as nat));
            assert(p * 2 * half <= p * n) by (nonlinear_arith)
                requires
                    2 * half <= n,
                    p >= 1,
            ;
            assert(p * 2 <= p * 2 * half) by (nonlinear_arith)
                requires
                    half >= 1,
                    p >= 1,
            ;
            assert(p * floor_pow2(n as nat) == (p * 2) * floor_pow2(half as nat)) by (nonlinear_arith)
                requires
                    floor_pow2(n as nat) == 2 * floor_pow2(half as nat),
            ;
        }
        p = p * 2;
        n = half;
    }
    p
}

/// A proof-of-work difficulty: zero (unset) or a power of two up to `MAX_DIFF`.
#[derive(Clone, Copy, Debug)]
pub struct Difficulty(u64);

impl Difficulty {
    /// The stored value; every difficulty holds a valid one.
    pub closed spec fn value(self) -> nat {
        if valid_difficulty(self.0 as nat) {
            self.0 as nat
        } else {
            0
        }
    }

    pub proof fn lemma_valid(self)
        ensures
            valid_difficulty(self.value()),
    {
    }

    #[verifier::type_invariant]
    spec fn inv(self) -> bool {
        valid_difficulty(self.0 as nat)
    }

    pub fn zero() -> (r: Difficulty)
        ensures
            r.value() == 0,
    {
        Difficulty(0)
    }

    pub fn is_zero(self) -> (r: bool)
        ensures
            r == (self.value() == 0),
    {
        proof {
            use_type_invariant(&self);
        }
        self.0 == 0
    }

    pub fn as_u64(self) -> (r: u64)
        ensures
            r == self.value(),
            valid_difficulty(r as nat),
    {
        proof {
            use_type_invariant(&self);
        }
        self.0
    }

    /// Builds a difficulty from a raw value, rounding as `round_difficulty` says.
    pub fn from(value: u64) -> (r: Difficulty)
        ensures
            r.value() == round_difficulty(value as nat),
    {
        proof {
            lemma_round_valid(value as nat);
        }
        Difficulty(format_difficulty(value))
    }

    /// The base-two logarithm of a non-zero difficulty.
    pub fn log2(&self) -> (r: u8)
        requires
            self.value() != 0,
        ensures
            exp2(r as nat) == self.value(),
    {
        proof {
            use_type_invariant(self);
        }
        let mut v: u64 = self.0;
        let mut k: u8 = 0;
        let ghost e = choose|e: nat| exp2(e) == self.0;
        proof {
            lemma_exp2_le_63(e);
            assert(exp2(0) == 1);
        }
        while v > 1
            invariant
                k <= e <= 63,
                v >= 1,
                exp2((e - k) as nat) == v,
                exp2(k as nat) * v == self.0,
            decreases v,
        {
            proof {
                if e == k {
                    assert(false);
                }
                let d = (e - k - 1) as nat;
                assert(exp2((e - k) as nat) == 2 * exp2(d));
                assert(exp2((k + 1) as nat) == 2 * exp2(k as nat));
                assert(exp2(k as nat) * v == exp2((k + 1) as nat) * exp2(d)) by (nonlinear_arith)
                    requires
                        v == 2 * exp2(d),
                        exp2((k + 1) as nat) == 2 * exp2(k as nat),
                ;
            }
            v = v / 2;
            k = k + 1;
        }
        proof {
            if e > k {
                let d = (e - k - 1) as nat;
                lemma_exp2_positive(d);
                assert(exp2((e - k) as nat) == 2 * exp2(d));
            }
        }
        k
    }
}

proof fn lemma_exp2_le_63(e: nat)
    requires
        exp2(e) <= MAX_DIFF,
    ensures
        e <= 63,
{
    if e > 63 {
        lemma_exp2_monotone(64, e);
        lemma_max_diff_pow2();
        assert(exp2(64) == 2 * exp2(63));
    }
}

proof fn lemma_exp2_monotone(a: nat, b: nat)
    requires
        a <= b,
    ensures
        exp2(a) <= exp2(b),
    decreases b,
{
    if a < b {
        lemma_exp2_monotone(a, (b - 1) as nat);
        lemma_exp2_positive((b - 1) as nat);
    }
}

/// Rebuilding a difficulty from its raw value gives the same difficulty.
pub proof fn lemma_difficulty_round_trip(x: u64)
    ensures
        round_difficulty(round_difficulty(x as nat)) == round_difficulty(x as nat),
{
    lemma_round_valid(x as nat);
    lemma_round_fixed(round_difficulty(x as nat));
}

/// The difficulty a miner works at (`current`), the one before it (`previous`,
/// so that late shares still count) and a pending change (`next`, zero when
/// none is pending).
#[derive(Clone, Copy, Debug)]
pub struct Difficulties {
    pub current: Difficulty,
    pub previous: Difficulty,
    pub next: Difficulty,
}

impl Difficulties {
    pub fn new(current: Difficulty, previous: Difficulty, next: Difficulty) -> (r: Difficulties)
        ensures
            r == (Difficulties { current, previous, next }),
    {
        Difficulties { current, previous, next }
    }

    pub fn new_only_current(current: Difficulty) -> (r: Difficulties)
        ensures
            r.current == current,
            r.previous.value() == 0,
            r.next.value() == 0,
    {
        Difficulties { current, previous: Difficulty::zero(), next: Difficulty::zero() }
    }

    pub fn current(&self) -> (r: Difficulty)
        ensures
            r == self.current,
    {
        self.current
    }

    /// The difficulty before the current one.
    pub fn previous(&self) -> (r: Difficulty)
        ensures
            r == self.previous,
    {
        self.previous
    }

    /// The pending change, if one is pending.
    pub fn next(&self) -> (r: Option<Difficulty>)
        ensures
            r == (if self.next.value() == 0 { None } else { Some(self.next) }),
    {
        if self.next.is_zero() {
            None
        } else {
            Some(self.next)
        }
    }

    pub fn update_next(&mut self, next: Difficulty)
        ensures
            *final(self) == (Difficulties { next, ..*old(self) }),
    {
        self.next = next;
    }

    /// Makes the pending change current; returns it, or `None` when nothing
    /// was pending (and then changes nothing).
    pub fn shift(&mut self) -> (r: Option<Difficulty>)
        ensures
            old(self).next.value() == 0 ==> r.is_none() && *final(self) == *old(self),
            old(self).next.value() != 0 ==> {
                &&& r == Some(old(self).next)
                &&& final(self).current == old(self).next
                &&& final(self).previous == old(self).current
                &&& final(self).next.value() == 0
            },
    {
        if self.next.is_zero() {
            None
        } else {
            self.previous = self.current;
            self.current = self.next;
            self.next = Difficulty::zero();
            Some(self.current)
        }
    }

    /// Forces `current`, keeping the one before as `previous` and dropping any
    /// pending change.
    pub fn set_and_shift(&mut self, current: Difficulty)
        ensures
            final(self).current == current,
            final(self).previous == old(self).current,
            final(self).next.value() == 0,
    {
        self.previous = self.current;
        self.current = current;
        self.next = Difficulty::zero();
    }
}

/// Per-session difficulty settings: the starting difficulty of new workers
/// and the floor that retargeting never goes below.
#[derive(Clone, Copy, Debug)]
pub struct DifficultySettings {
    pub default: Difficulty,
    pub minimum: Difficulty,
}

/// Rounding a value no smaller than a difficulty keeps it no smaller, and
/// never makes a value larger.
pub proof fn lemma_round_within(floor: Difficulty, v: nat)
    requires
        floor.value() <= v,
    ensures
        floor.value() <= round_difficulty(v) <= v,
{
    let f = floor.value();
    if v < MAX_DIFF {
        if v >= 1 {
            lemma_floor_pow2_bounds(v);
        }
        lemma_floor_pow2_monotone(f, v);
        if f != 0 {
            lemma_round_fixed_value(floor);
        }
    }
}

proof fn lemma_round_fixed_value(d: Difficulty)
    ensures
        d.value() < MAX_DIFF ==> floor_pow2(d.value()) == d.value(),
{
    lemma_round_fixed(d.value());
}

/// Doubling a non-zero difficulty whose double still fits in a `u64`
/// gives a value that rounding leaves alone.
pub proof fn lemma_double_fixed(d: Difficulty)
    requires
        d.value() != 0,
        2 * d.value() <= u64::MAX,
    ensures
        round_difficulty(2 * d.value()) == 2 * d.value(),
{
    d.lemma_valid();
    let k = choose|k: nat| exp2(k) == d.value();
    assert(exp2(k + 1) == 2 * exp2(k));
    if k + 1 > 63 {
        lemma_exp2_monotone(64, k + 1);
        lemma_max_diff_pow2();
        assert(exp2(64) == 2 * exp2(63));
    }
    lemma_exp2_monotone(k + 1, 63);
    lemma_max_diff_pow2();
    lemma_round_fixed(2 * d.value());
}

} // verus!
