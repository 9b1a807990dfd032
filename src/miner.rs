use vstd::prelude::*;
use crate::config::{retarget_ms, sat_sub, ConfigManager, ConnectionConfig, DifficultyConfig};
use crate::difficulty::{round_difficulty, Difficulties, Difficulty, DifficultySettings};
use crate::session_id::SessionID;
use crate::types::ConnectionID;
use crate::utils::now;
use crate::var_diff::{seq_sum, BufferModel, VarDiffBuffer};

verus! {

/// Share counters of one worker.
#[derive(Clone, Copy, Debug)]
pub struct MinerStats {
    pub accepted: u64,
    pub stale: u64,
    pub rejected: u64,
    /// Milliseconds since the Unix epoch of the last share.
    pub last_active: u128,
}

/// Retargeting state of one worker.
#[derive(Debug)]
pub struct VarDiffStats {
    pub last_timestamp: u128,
    pub last_retarget_share: u64,
    pub last_retarget: u128,
    pub vardiff_buf: VarDiffBuffer,
}

/// Ban-scoring state of one worker.
#[derive(Clone, Copy, Debug)]
pub struct BanStats {
    pub last_ban_check_share: u128,
    pub needs_ban: bool,
}

/// Retargeting state as plain values.
pub ghost struct VarDiffModel {
    pub last_timestamp: u128,
    pub last_retarget_share: u64,
    pub last_retarget: u128,
    pub buf: BufferModel,
}

impl View for VarDiffStats {
    type V = VarDiffModel;

    open spec fn view(&self) -> VarDiffModel {
        VarDiffModel {
            last_timestamp: self.last_timestamp,
            last_retarget_share: self.last_retarget_share,
            last_retarget: self.last_retarget,
            buf: self.vardiff_buf@,
        }
    }
}

/// All shares a worker has sent.
pub open spec fn total_shares(s: MinerStats) -> int {
    s.accepted + s.stale + s.rejected
}

/// A counter after one more share; it stops at the top of its range.
pub open spec fn bump(x: u64) -> u64 {
    if x < u64::MAX {
        (x + 1) as u64
    } else {
        x
    }
}

/// `v` brought into `[lo, hi]`; the floor is checked first.
pub open spec fn clamp(v: int, lo: int, hi: int) -> int {
    if v < lo {
        lo
    } else if v > hi {
        hi
    } else {
        v
    }
}

/// Milliseconds from `last` to `now`, zero if the clock went back, capped
/// at the range of a buffer slot.
pub open spec fn interval(now: u128, last: u128) -> u64 {
    let d = sat_sub(now as int, last as int);
    if d > u64::MAX {
        u64::MAX
    } else {
        d as u64
    }
}

/// The ban check after a share: once `check_threshold` shares have come
/// since the last check, the worker needs a ban exactly when stale and
/// rejected shares make at least `invalid_percent` percent of all shares.
pub open spec fn ban_check(s: MinerStats, b: BanStats, c: ConnectionConfig) -> BanStats {
    let total = total_shares(s);
    if total - b.last_ban_check_share >= c.check_threshold {
        BanStats {
            last_ban_check_share: total as u128,
            needs_ban: !((s.stale + s.rejected) * 100 < c.invalid_percent * total),
        }
    } else {
        b
    }
}

/// The difficulty the running average asks for, before clamping: half when
/// the average exceeds one and a half targets, double when it is under
/// seven tenths of one, nothing in between or when no time was measured.
pub open spec fn proposed_difficulty(sum: int, used: int, target_ms: int, current: int) -> Option<
    int,
> {
    if sum <= 0 || used <= 0 {
        None
    } else if sum > target_ms * used {
        if 2 * sum <= 3 * target_ms * used {
            None
        } else {
            Some(current / 2)
        }
    } else if 10 * sum >= 7 * target_ms * used {
        None
    } else {
        Some(current * 2)
    }
}

/// One retarget step at `now`: the interval since the last share is
/// recorded; once enough shares or time have passed, the average decides a
/// new difficulty, clamped to `[minimum, maximum_difficulty]`. Returns the
/// new state and the clamped difficulty when it differs from `current`.
pub open spec fn retarget_step(
    vd: VarDiffModel,
    s: MinerStats,
    current: nat,
    minimum: nat,
    c: DifficultyConfig,
    now: u128,
) -> (VarDiffModel, Option<int>) {
    let buf = vd.buf.appended(interval(now, vd.last_timestamp));
    let vd1 = VarDiffModel { last_timestamp: now, buf, ..vd };
    let due = total_shares(s) - vd.last_retarget_share >= c.retarget_share_amount || sat_sub(
        now as int,
        vd.last_retarget as int,
    ) >= retarget_ms(c);
    if !due {
        (vd1, None)
    } else {
        let vd2 = VarDiffModel { last_retarget: now, last_retarget_share: s.accepted, ..vd1 };
        match proposed_difficulty(
            seq_sum(buf.window()),
            buf.used as int,
            c.target_time * 1000,
            current as int,
        ) {
            None => (vd2, None),
            Some(n) => {
                let d = clamp(n, minimum as int, c.maximum_difficulty as int);
                if d == current {
                    (vd2, None)
                } else {
                    (VarDiffModel { buf: buf.cleared(), ..vd2 }, Some(d))
                }
            },
        }
    }
}

/// One worker: its identity, difficulties, share counters, retargeting
/// and ban-scoring state.
#[derive(Debug)]
pub struct Miner {
    config_manager: ConfigManager,
    worker_id: uuid::Uuid,
    sid: SessionID,
    connection_id: ConnectionID,
    client: Option<String>,
    name: Option<String>,
    difficulties: Difficulties,
    ban_stats: BanStats,
    stats: MinerStats,
    var_diff_stats: VarDiffStats,
    difficulty_settings: DifficultySettings,
}

impl Miner {
    pub closed spec fn config(&self) -> crate::config::Config {
        self.config_manager@
    }

    pub closed spec fn spec_difficulties(&self) -> Difficulties {
        self.difficulties
    }

    pub closed spec fn spec_stats(&self) -> MinerStats {
        self.stats
    }

    pub closed spec fn spec_ban_stats(&self) -> BanStats {
        self.ban_stats
    }

    pub closed spec fn spec_var_diff(&self) -> VarDiffModel {
        self.var_diff_stats@
    }

    pub closed spec fn spec_settings(&self) -> DifficultySettings {
        self.difficulty_settings
    }

    pub closed spec fn spec_session_id(&self) -> SessionID {
        self.sid
    }

    pub closed spec fn spec_connection_id(&self) -> ConnectionID {
        self.connection_id
    }

    pub closed spec fn spec_worker_id(&self) -> uuid::Uuid {
        self.worker_id
    }

    pub closed spec fn spec_client(&self) -> Option<String> {
        self.client
    }

    pub closed spec fn spec_name(&self) -> Option<String> {
        self.name
    }

    pub closed spec fn wf(&self) -> bool {
        &&& self.var_diff_stats.vardiff_buf.wf()
        &&& self.var_diff_stats.last_retarget_share <= self.stats.accepted
        &&& self.ban_stats.last_ban_check_share <= total_shares(self.stats)
    }

    /// A new worker at `now`: working at the session's default difficulty,
    /// with no share counted, and a first retarget after half an interval.
    pub open spec fn fresh(
        r: Miner,
        connection_id: ConnectionID,
        worker_id: uuid::Uuid,
        sid: SessionID,
        client: Option<String>,
        name: Option<String>,
        config: crate::config::Config,
        difficulty: DifficultySettings,
        now: u128,
    ) -> bool {
        &&& r.wf()
        &&& r.config() == config
        &&& r.spec_session_id() == sid
        &&& r.spec_connection_id() == connection_id
        &&& r.spec_worker_id() == worker_id
        &&& r.spec_client() == client
        &&& r.spec_name() == name
        &&& r.spec_settings() == difficulty
        &&& r.spec_difficulties().current == difficulty.default
        &&& r.spec_difficulties().previous.value() == 0
        &&& r.spec_difficulties().next.value() == 0
        &&& r.spec_stats() == (MinerStats { accepted: 0, stale: 0, rejected: 0, last_active: now })
        &&& r.spec_ban_stats() == (BanStats { last_ban_check_share: 0, needs_ban: false })
        &&& r.spec_var_diff().last_timestamp == now
        &&& r.spec_var_diff().last_retarget_share == 0
        &&& r.spec_var_diff().last_retarget == sat_sub(
            now as int,
            retarget_ms(config.difficulty) / 2,
        )
        &&& r.spec_var_diff().buf.used == 0
    }

    /// A new worker at `now`, as `fresh` says.
    pub fn new_at(
        connection_id: ConnectionID,
        worker_id: uuid::Uuid,
        sid: SessionID,
        client: Option<String>,
        name: Option<String>,
        config_manager: ConfigManager,
        difficulty: DifficultySettings,
        now: u128,
    ) -> (r: Miner)
        ensures
            Miner::fresh(r, connection_id, worker_id, sid, client, name, config_manager@, difficulty, now),
    {
        let last_retarget = config_manager.difficulty_config().initial_retarget_time(now);
        Miner {
            config_manager,
            worker_id,
            sid,
            connection_id,
            client,
            name,
            difficulties: Difficulties::new_only_current(difficulty.default),
            ban_stats: BanStats { last_ban_check_share: 0, needs_ban: false },
            stats: MinerStats { accepted: 0, stale: 0, rejected: 0, last_active: now },
            var_diff_stats: VarDiffStats {
                last_timestamp: now,
                last_retarget,
                vardiff_buf: VarDiffBuffer::new(),
                last_retarget_share: 0,
            },
            difficulty_settings: difficulty,
        }
    }

    /// A new worker, as `new_at` at the current time.
    pub fn new(
        connection_id: ConnectionID,
        worker_id: uuid::Uuid,
        sid: SessionID,
        client: Option<String>,
        name: Option<String>,
        config_manager: ConfigManager,
        difficulty: DifficultySettings,
    ) -> (r: Miner)
        ensures
            exists|t: u128| #[trigger]
                Miner::fresh(r, connection_id, worker_id, sid, client, name, config_manager@, difficulty, t),
    {
        let t = now();
        Miner::new_at(connection_id, worker_id, sid, client, name, config_manager, difficulty, t)
    }

    pub fn needs_ban(&self) -> (r: bool)
        ensures
            r == self.spec_ban_stats().needs_ban,
    {
        self.ban_stats.needs_ban
    }

    /// Runs the ban check that follows each share.
    pub fn consider_ban(&mut self)
        requires
            old(self).wf(),
        ensures
            final(self).wf(),
            final(self).spec_ban_stats() == ban_check(
                old(self).spec_stats(),
                old(self).spec_ban_stats(),
                old(self).config().connection,
            ),
            final(self).spec_stats() == old(self).spec_stats(),
            final(self).spec_var_diff() == old(self).spec_var_diff(),
            final(self).spec_difficulties() == old(self).spec_difficulties(),
            final(self).spec_settings() == old(self).spec_settings(),
            final(self).config() == old(self).config(),
            final(self).spec_session_id() == old(self).spec_session_id(),
    {
        let total: u128 = self.stats.accepted as u128 + self.stats.stale as u128
            + self.stats.rejected as u128;
        let config = self.config_manager.connection_config();
        if total - self.ban_stats.last_ban_check_share >= config.check_threshold as u128 {
            let bad: u128 = self.stats.stale as u128 + self.stats.rejected as u128;
            self.ban_stats.last_ban_check_share = total;
            // Any limit above one hundred percent decides as one just above it.
            let limit: u128 = if config.invalid_percent > 100 {
                101
            } else {
                config.invalid_percent as u128
            };
            proof {
                assert(bad <= total);
                assert((bad * 100 < limit * total) == ((self.stats.stale + self.stats.rejected)
                    * 100 < config.invalid_percent * total)) by (nonlinear_arith)
                    requires
                        bad <= total,
                        bad == self.stats.stale + self.stats.rejected,
                        limit == if config.invalid_percent > 100 {
                            101
                        } else {
                            config.invalid_percent as int
                        },
                ;
                assert(limit * total <= 101 * total) by (nonlinear_arith)
                    requires
                        limit <= 101,
                ;
            }
            if bad * 100 < limit * total {
                self.ban_stats.needs_ban = false;
            } else {
                // The flag is what the session acts on when it closes.
                self.ban_stats.needs_ban = true;
            }
        }
    }

    pub fn difficulties(&self) -> (r: Difficulties)
        ensures
            r == self.spec_difficulties(),
    {
        self.difficulties
    }

    /// The retarget step that follows each share, at `now`.
    fn retarget_at(&mut self, now: u128)
        requires
            old(self).wf(),
        ensures
            final(self).wf(),
            ({
                let (vd, next) = retarget_step(
                    old(self).spec_var_diff(),
                    old(self).spec_stats(),
                    old(self).spec_difficulties().current.value(),
                    old(self).spec_settings().minimum.value(),
                    old(self).config().difficulty,
                    now,
                );
                &&& final(self).spec_var_diff() == vd
                &&& next is None ==> final(self).spec_difficulties() == old(
                    self,
                ).spec_difficulties()
                &&& next is Some ==> {
                    &&& final(self).spec_difficulties().current == old(
                        self,
                    ).spec_difficulties().current
                    &&& final(self).spec_difficulties().previous == old(
                        self,
                    ).spec_difficulties().previous
                    &&& final(self).spec_difficulties().next.value() == round_difficulty(
                        next->0 as nat,
                    )
                }
            }),
            final(self).spec_stats() == old(self).spec_stats(),
            final(self).spec_ban_stats() == old(self).spec_ban_stats(),
            final(self).spec_settings() == old(self).spec_settings(),
            final(self).config() == old(self).config(),
            final(self).spec_session_id() == old(self).spec_session_id(),
    {
        let config = self.config_manager.difficulty_config();
        let retarget_time: u128 = config.retarget_time as u128 * 1000;
        let retarget_share_amount = config.retarget_share_amount;

        let elapsed: u128 = now.saturating_sub(self.var_diff_stats.last_timestamp);
        let since_last: u64 = if elapsed > u64::MAX as u128 {
            u64::MAX
        } else {
            elapsed as u64
        };
        self.var_diff_stats.vardiff_buf.append(since_last);
        self.var_diff_stats.last_timestamp = now;

        let total: u128 = self.stats.accepted as u128 + self.stats.rejected as u128
            + self.stats.stale as u128;
        let share_difference: u128 = total - self.var_diff_stats.last_retarget_share as u128;
        let time_difference: u128 = now.saturating_sub(self.var_diff_stats.last_retarget);

        if !(share_difference >= retarget_share_amount as u128 || time_difference
            >= retarget_time) {
            return;
        }
        self.var_diff_stats.last_retarget = now;
        self.var_diff_stats.last_retarget_share = self.stats.accepted;

        let sum: u128 = self.var_diff_stats.vardiff_buf.sum();
        let used: u128 = self.var_diff_stats.vardiff_buf.used() as u128;
        if sum == 0 || used == 0 {
            return;
        }
        proof {
            crate::var_diff::lemma_window_sum_bound(self.var_diff_stats.vardiff_buf@);
        }
        let target: u128 = config.target_time as u128 * 1000;
        let current: u128 = self.difficulties.current().as_u64() as u128;
        proof {
            assert(target * used <= target * 90) by (nonlinear_arith)
                requires
                    used <= 90,
            ;
            assert(3 * target * used <= 3 * target * 90) by (nonlinear_arith)
                requires
                    used <= 90,
            ;
            assert(7 * target * used <= 7 * target * 90) by (nonlinear_arith)
                requires
                    used <= 90,
            ;
        }
        let proposed: u128;
        if sum > target * used {
            if 2 * sum <= 3 * target * used {
                return;
            }
            proposed = current / 2;
        } else if 10 * sum >= 7 * target * used {
            return;
        } else {
            proposed = current * 2;
        }
        let minimum: u128 = self.difficulty_settings.minimum.as_u64() as u128;
        let maximum: u128 = config.maximum_difficulty as u128;
        let new_diff: u128 = if proposed < minimum {
            minimum
        } else if proposed > maximum {
            maximum
        } else {
            proposed
        };
        if new_diff != current {
            self.difficulties.update_next(Difficulty::from(new_diff as u64));
            self.var_diff_stats.vardiff_buf.reset();
        }
    }

    /// Counts a share of `kind` at `now` and runs the ban check and the
    /// retarget step that follow it.
    fn record_share(&mut self, kind: ShareKind, now: u128)
        requires
            old(self).wf(),
        ensures
            share_recorded(*old(self), *final(self), kind, now),
    {
        match kind {
            ShareKind::Valid => {
                self.stats.accepted = self.stats.accepted.saturating_add(1);
            },
            ShareKind::Stale => {
                self.stats.stale = self.stats.stale.saturating_add(1);
            },
            ShareKind::Rejected => {
                self.stats.rejected = self.stats.rejected.saturating_add(1);
            },
        }
        self.stats.last_active = now;
        self.consider_ban();
        self.retarget_at(now);
    }

    /// Counts an accepted share at `now`.
    pub fn valid_share_at(&mut self, now: u128)
        requires
            old(self).wf(),
        ensures
            share_recorded(*old(self), *final(self), ShareKind::Valid, now),
    {
        self.record_share(ShareKind::Valid, now);
    }

    /// Counts a stale share at `now`.
    pub fn stale_share_at(&mut self, now: u128)
        requires
            old(self).wf(),
        ensures
            share_recorded(*old(self), *final(self), ShareKind::Stale, now),
    {
        self.record_share(ShareKind::Stale, now);
    }

    /// Counts a rejected share at `now`.
    pub fn rejected_share_at(&mut self, now: u128)
        requires
            old(self).wf(),
        ensures
            share_recorded(*old(self), *final(self), ShareKind::Rejected, now),
    {
        self.record_share(ShareKind::Rejected, now);
    }

    /// Counts an accepted share at the current time.
    pub fn valid_share(&mut self)
        requires
            old(self).wf(),
        ensures
            exists|t: u128| share_recorded(*old(self), *final(self), ShareKind::Valid, t),
    {
        self.valid_share_at(now());
    }

    /// Counts a stale share at the current time.
    pub fn stale_share(&mut self)
        requires
            old(self).wf(),
        ensures
            exists|t: u128| share_recorded(*old(self), *final(self), ShareKind::Stale, t),
    {
        self.stale_share_at(now());
    }

    /// Counts a rejected share at the current time.
    pub fn rejected_share(&mut self)
        requires
            old(self).wf(),
        ensures
            exists|t: u128| share_recorded(*old(self), *final(self), ShareKind::Rejected, t),
    {
        self.rejected_share_at(now());
    }

    /// Makes a pending difficulty change current and returns it.
    pub fn update_difficulty(&mut self) -> (r: Option<Difficulty>)
        requires
            old(self).wf(),
        ensures
            final(self).wf(),
            old(self).spec_difficulties().next.value() == 0 ==> r.is_none()
                && final(self).spec_difficulties() == old(self).spec_difficulties(),
            old(self).spec_difficulties().next.value() != 0 ==> {
                &&& r == Some(old(self).spec_difficulties().next)
                &&& final(self).spec_difficulties().current == old(self).spec_difficulties().next
                &&& final(self).spec_difficulties().previous == old(
                    self,
                ).spec_difficulties().current
                &&& final(self).spec_difficulties().next.value() == 0
            },
            final(self).spec_stats() == old(self).spec_stats(),
            final(self).spec_ban_stats() == old(self).spec_ban_stats(),
            final(self).spec_var_diff() == old(self).spec_var_diff(),
            final(self).spec_settings() == old(self).spec_settings(),
            final(self).config() == old(self).config(),
            final(self).spec_session_id() == old(self).spec_session_id(),
    {
        self.difficulties.shift()
    }

    /// Forces the current difficulty, dropping any pending change.
    pub fn set_difficulty(&mut self, difficulty: Difficulty)
        requires
            old(self).wf(),
        ensures
            final(self).wf(),
            final(self).spec_difficulties().current == difficulty,
            final(self).spec_difficulties().previous == old(self).spec_difficulties().current,
            final(self).spec_difficulties().next.value() == 0,
            final(self).spec_stats() == old(self).spec_stats(),
            final(self).spec_ban_stats() == old(self).spec_ban_stats(),
            final(self).spec_var_diff() == old(self).spec_var_diff(),
            final(self).spec_settings() == old(self).spec_settings(),
            final(self).config() == old(self).config(),
            final(self).spec_session_id() == old(self).spec_session_id(),
    {
        self.difficulties.set_and_shift(difficulty);
    }

    pub fn connection_id(&self) -> (r: ConnectionID)
        ensures
            r == self.spec_connection_id(),
    {
        self.connection_id
    }

    pub fn worker_id(&self) -> (r: uuid::Uuid)
        ensures
            r == self.spec_worker_id(),
    {
        self.worker_id
    }

    pub fn session_id(&self) -> (r: SessionID)
        ensures
            r == self.spec_session_id(),
    {
        self.sid
    }

    pub fn client(&self) -> (r: &Option<String>)
        ensures
            *r == self.spec_client(),
    {
        &self.client
    }

    pub fn name(&self) -> (r: &Option<String>)
        ensures
            *r == self.spec_name(),
    {
        &self.name
    }
}

/// How a share was judged.
#[derive(Clone, Copy, Debug, PartialEq, Eq, Structural)]
pub enum ShareKind {
    Valid,
    Stale,
    Rejected,
}

/// The counters after one share of `kind` at `now`.
pub open spec fn counted(s: MinerStats, kind: ShareKind, now: u128) -> MinerStats {
    match kind {
        ShareKind::Valid => MinerStats { accepted: bump(s.accepted), last_active: now, ..s },
        ShareKind::Stale => MinerStats { stale: bump(s.stale), last_active: now, ..s },
        ShareKind::Rejected => MinerStats { rejected: bump(s.rejected), last_active: now, ..s },
    }
}

/// `after` is `before` once a share of `kind` at `now` was counted, the ban
/// check run and the retarget step taken.
pub open spec fn share_recorded(before: Miner, after: Miner, kind: ShareKind, now: u128) -> bool {
    let s = counted(before.spec_stats(), kind, now);
    let (vd, next) = retarget_step(
        before.spec_var_diff(),
        s,
        before.spec_difficulties().current.value(),
        before.spec_settings().minimum.value(),
        before.config().difficulty,
        now,
    );
    &&& after.wf()
    &&& after.spec_stats() == s
    &&& after.spec_ban_stats() == ban_check(s, before.spec_ban_stats(), before.config().connection)
    &&& after.spec_var_diff() == vd
    &&& next is None ==> after.spec_difficulties() == before.spec_difficulties()
    &&& next is Some ==> {
        &&& after.spec_difficulties().current == before.spec_difficulties().current
        &&& after.spec_difficulties().previous == before.spec_difficulties().previous
        &&& after.spec_difficulties().next.value() == round_difficulty(next->0 as nat)
    }
    &&& after.spec_settings() == before.spec_settings()
    &&& after.config() == before.config()
    &&& after.spec_session_id() == before.spec_session_id()
}

/// While the running average lies within `[0.7, 1.5]` times the target, a
/// retarget step leaves the difficulty alone.
pub proof fn lemma_neutral_band(
    vd: VarDiffModel,
    s: MinerStats,
    current: nat,
    minimum: nat,
    c: DifficultyConfig,
    now: u128,
)
    requires
        ({
            let buf = vd.buf.appended(interval(now, vd.last_timestamp));
            let sum = seq_sum(buf.window());
            let t = c.target_time * 1000;
            &&& 10 * sum >= 7 * t * buf.used
            &&& 2 * sum <= 3 * t * buf.used
        }),
    ensures
        retarget_step(vd, s, current, minimum, c, now).1 is None,
{
}

/// A difficulty that a retarget step proposes lies within the session's
/// minimum and the configured maximum, and so does the value stored for it.
pub proof fn lemma_retarget_clamped(
    vd: VarDiffModel,
    s: MinerStats,
    current: nat,
    minimum: Difficulty,
    c: DifficultyConfig,
    now: u128,
)
    requires
        minimum.value() <= c.maximum_difficulty,
        retarget_step(vd, s, current, minimum.value(), c, now).1 is Some,
    ensures
        ({
            let d = retarget_step(vd, s, current, minimum.value(), c, now).1->0;
            &&& minimum.value() <= d <= c.maximum_difficulty
            &&& minimum.value() <= round_difficulty(d as nat) <= c.maximum_difficulty
        }),
{
    let d = retarget_step(vd, s, current, minimum.value(), c, now).1->0;
    assert(minimum.value() <= d <= c.maximum_difficulty);
    crate::difficulty::lemma_round_within(minimum, d as nat);
}

/// Once a retarget is due and the running average is under seven tenths
/// of the target, a worker whose doubled difficulty lies within the
/// session's minimum and the maximum gets exactly that doubled difficulty
/// as its next one.
pub proof fn lemma_fast_shares_double(
    vd: VarDiffModel,
    s: MinerStats,
    current: Difficulty,
    minimum: nat,
    c: DifficultyConfig,
    now: u128,
)
    requires
        ({
            let buf = vd.buf.appended(interval(now, vd.last_timestamp));
            let sum = seq_sum(buf.window());
            let t = c.target_time * 1000;
            &&& total_shares(s) - vd.last_retarget_share >= c.retarget_share_amount || sat_sub(
                now as int,
                vd.last_retarget as int,
            ) >= retarget_ms(c)
            &&& sum > 0
            &&& 10 * sum < 7 * t * buf.used
        }),
        current.value() != 0,
        minimum <= 2 * current.value() <= c.maximum_difficulty,
    ensures
        retarget_step(vd, s, current.value(), minimum, c, now).1 == Some(2 * current.value() as int),
        round_difficulty((2 * current.value()) as nat) == 2 * current.value(),
{
    let buf = vd.buf.appended(interval(now, vd.last_timestamp));
    let sum = seq_sum(buf.window());
    let t = c.target_time * 1000;
    assert(sum <= t * buf.used) by (nonlinear_arith)
        requires
            10 * sum < 7 * t * buf.used,
            sum > 0,
            t >= 0,
    ;
    crate::difficulty::lemma_double_fixed(current);
}

/// Shares whose retarget steps all find the running average within
/// `[0.7, 1.5]` times the target leave the difficulties as they were; so
/// when nothing was pending, `update_difficulty` returns nothing.
pub proof fn lemma_neutral_run(ms: Seq<Miner>, kinds: Seq<ShareKind>, times: Seq<u128>)
    requires
        ms.len() == kinds.len() + 1,
        kinds.len() == times.len(),
        forall|i: int|
            0 <= i < kinds.len() ==> share_recorded(
                #[trigger] ms[i],
                ms[i + 1],
                kinds[i],
                times[i],
            ),
        forall|i: int|
            0 <= i < kinds.len() ==> ({
                let vd = (#[trigger] ms[i]).spec_var_diff();
                let buf = vd.buf.appended(interval(times[i], vd.last_timestamp));
                let sum = seq_sum(buf.window());
                let t = ms[i].config().difficulty.target_time * 1000;
                &&& 10 * sum >= 7 * t * buf.used
                &&& 2 * sum <= 3 * t * buf.used
            }),
    ensures
        ms.last().spec_difficulties() == ms[0].spec_difficulties(),
    decreases kinds.len(),
{
    if kinds.len() > 0 {
        let n = kinds.len() - 1;
        let pm = ms.drop_last();
        let pk = kinds.drop_last();
        let pt = times.drop_last();
        assert forall|i: int| 0 <= i < pk.len() implies share_recorded(
            #[trigger] pm[i],
            pm[i + 1],
            pk[i],
            pt[i],
        ) by {
            assert(pm[i] == ms[i] && pm[i + 1] == ms[i + 1] && pk[i] == kinds[i] && pt[i]
                == times[i]);
        }
        assert forall|i: int| 0 <= i < pk.len() implies ({
            let vd = (#[trigger] pm[i]).spec_var_diff();
            let buf = vd.buf.appended(interval(pt[i], vd.last_timestamp));
            let sum = seq_sum(buf.window());
            let t = pm[i].config().difficulty.target_time * 1000;
            &&& 10 * sum >= 7 * t * buf.used
            &&& 2 * sum <= 3 * t * buf.used
        }) by {
            assert(pm[i] == ms[i] && pt[i] == times[i]);
        }
        lemma_neutral_run(pm, pk, pt);
        let a = ms[n];
        let b = ms[n + 1];
        assert(share_recorded(a, b, kinds[n], times[n]));
        let st = counted(a.spec_stats(), kinds[n], times[n]);
        lemma_neutral_band(
            a.spec_var_diff(),
            st,
            a.spec_difficulties().current.value(),
            a.spec_settings().minimum.value(),
            a.config().difficulty,
            times[n],
        );
        assert(pm.last() == a);
    }
}

} // verus!
