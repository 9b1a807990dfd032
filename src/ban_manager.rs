use vstd::prelude::*;
use dashmap::DashMap;
use crate::error::Error;
use crate::utils::now;

verus! {

/// An IP address: a version 4 address as its 32 bits, most significant
/// octet first, or a version 6 address as its 128 bits.
#[derive(Clone, Copy, Debug, PartialEq, Eq, Structural, Hash)]
pub enum IpAddress {
    V4(u32),
    V6(u128),
}

impl IpAddress {
    /// The version 4 address `a.b.c.d`.
    pub fn v4(a: u8, b: u8, c: u8, d: u8) -> (r: IpAddress)
        ensures
            r == IpAddress::V4((a * 0x100_0000 + b * 0x1_0000 + c * 0x100 + d) as u32),
    {
        IpAddress::V4(a as u32 * 0x100_0000 + b as u32 * 0x1_0000 + c as u32 * 0x100 + d as u32)
    }

    pub open spec fn spec_is_loopback(self) -> bool {
        match self {
            IpAddress::V4(v) => 0x7F00_0000 <= v <= 0x7FFF_FFFF,
            IpAddress::V6(v) => v == 1,
        }
    }

    pub open spec fn spec_is_unspecified(self) -> bool {
        match self {
            IpAddress::V4(v) => v == 0,
            IpAddress::V6(v) => v == 0,
        }
    }

    /// Whether this is a loopback address: `127.0.0.0/8` or `::1`.
    pub fn is_loopback(&self) -> (r: bool)
        ensures
            r == self.spec_is_loopback(),
    {
        match self {
            IpAddress::V4(v) => 0x7F00_0000 <= *v && *v <= 0x7FFF_FFFF,
            IpAddress::V6(v) => *v == 1,
        }
    }

    /// Whether this is the unspecified address: `0.0.0.0` or `::`.
    pub fn is_unspecified(&self) -> (r: bool)
        ensures
            r == self.spec_is_unspecified(),
    {
        match self {
            IpAddress::V4(v) => *v == 0,
            IpAddress::V6(v) => *v == 0,
        }
    }
}

/// An IP address and a port.
#[derive(Clone, Copy, Debug, PartialEq, Eq, Structural, Hash)]
pub struct SocketAddress {
    pub ip: IpAddress,
    pub port: u16,
}

/// What a ban is recorded under.
#[derive(Clone, Debug, Hash)]
pub enum Key {
    IP(IpAddress),
    Socket(SocketAddress),
    Account(String),
    Worker(String),
}

/// A key as plain values.
pub ghost enum KeyModel {
    IP(IpAddress),
    Socket(SocketAddress),
    Account(Seq<char>),
    Worker(Seq<char>),
}

impl View for Key {
    type V = KeyModel;

    open spec fn view(&self) -> KeyModel {
        match self {
            Key::IP(ip) => KeyModel::IP(*ip),
            Key::Socket(s) => KeyModel::Socket(*s),
            Key::Account(a) => KeyModel::Account(a@),
            Key::Worker(w) => KeyModel::Worker(w@),
        }
    }
}

impl PartialEq for Key {
    fn eq(&self, other: &Key) -> (r: bool)
        ensures
            r == (self@ == other@),
    {
        match (self, other) {
            (Key::IP(a), Key::IP(b)) => *a == *b,
            (Key::Socket(a), Key::Socket(b)) => *a == *b,
            (Key::Account(a), Key::Account(b)) => *a == *b,
            (Key::Worker(a), Key::Worker(b)) => *a == *b,
            _ => false,
        }
    }
}

impl vstd::std_specs::cmp::PartialEqSpecImpl for Key {
    open spec fn obeys_eq_spec() -> bool {
        true
    }

    open spec fn eq_spec(&self, other: &Key) -> bool {
        self@ == other@
    }
}

impl Eq for Key {

}

/// Keys that are never banned: loopback and unspecified addresses.
pub open spec fn whitelisted(k: KeyModel) -> bool {
    match k {
        KeyModel::IP(ip) => ip.spec_is_loopback() || ip.spec_is_unspecified(),
        KeyModel::Socket(s) => s.ip.spec_is_loopback() || s.ip.spec_is_unspecified(),
        _ => false,
    }
}

impl Key {
    /// A copy of this key.
    pub fn duplicate(&self) -> (r: Key)
        ensures
            r@ == self@,
    {
        match self {
            Key::IP(ip) => Key::IP(*ip),
            Key::Socket(s) => Key::Socket(*s),
            Key::Account(a) => Key::Account(a.clone()),
            Key::Worker(w) => Key::Worker(w.clone()),
        }
    }

    /// Whether the key is never banned.
    pub fn is_whitelisted(&self) -> (r: bool)
        ensures
            r == whitelisted(self@),
    {
        match self {
            Key::IP(ip) => ip.is_loopback() || ip.is_unspecified(),
            Key::Socket(s) => s.ip.is_loopback() || s.ip.is_unspecified(),
            _ => false,
        }
    }
}

/// A ban as listed to callers.
#[derive(Clone, Debug)]
pub struct BanInfo {
    pub address: Key,
    pub score: u64,
}

/// A ban as plain values.
pub ghost struct BanRecord {
    pub score: u64,
    pub expires_at: u64,
}

/// One ban as the table stores it.
#[derive(Clone, Debug)]
pub struct BanEntry {
    pub data: BanInfo,
    /// Milliseconds at which the ban ends.
    pub expires_at: u64,
}

/// A stored ban as plain values.
pub open spec fn record(e: BanEntry) -> BanRecord {
    BanRecord { score: e.data.score, expires_at: e.expires_at }
}

#[verifier::external_type_specification]
#[verifier::external_body]
#[verifier::reject_recursive_types(K)]
#[verifier::reject_recursive_types(V)]
#[verifier::reject_recursive_types(S)]
pub struct ExDashMap<K, V, S>(dashmap::DashMap<K, V, S>);

/// The concurrent map that holds the bans.
pub type BanTable = DashMap<Key, BanEntry>;

/// The entries of a ban table, by key.
pub uninterp spec fn ban_table(m: BanTable) -> Map<KeyModel, BanEntry>;

/// Relies on dashmap::DashMap::new: a map with no entry.
#[verifier::external_body]
fn table_new() -> (r: BanTable)
    ensures
        ban_table(r).is_empty(),
{
    DashMap::new()
}

/// Relies on dashmap::DashMap::get: the score and end of the entry under
/// `k`, if there is one.
#[verifier::external_body]
fn table_get(m: &BanTable, k: &Key) -> (r: Option<(u64, u64)>)
    ensures
        r is None <==> !ban_table(*m).contains_key(k@),
        r is Some ==> r->0 == (ban_table(*m)[k@].data.score, ban_table(*m)[k@].expires_at),
{
    m.get(k).map(|e| (e.data.score, e.expires_at))
}

/// Relies on dashmap::DashMap::insert: `v` is stored under `k`, replacing
/// any entry there.
#[verifier::external_body]
fn table_insert(m: &mut BanTable, k: Key, v: BanEntry)
    ensures
        ban_table(*final(m)) == ban_table(*old(m)).insert(k@, v),
{
    m.insert(k, v);
}

/// Relies on dashmap::DashMap::remove: takes out the entry under `k` and
/// returns it.
#[verifier::external_body]
fn table_remove(m: &mut BanTable, k: &Key) -> (r: Option<BanEntry>)
    ensures
        ban_table(*final(m)) == ban_table(*old(m)).remove(k@),
        r is None <==> !ban_table(*old(m)).contains_key(k@),
        r is Some ==> r->0 == ban_table(*old(m))[k@],
{
    m.remove(k).map(|(_, v)| v)
}

/// Relies on dashmap::DashMap::retain: keeps exactly the entries still in
/// force at `now`.
#[verifier::external_body]
fn table_retain_live(m: &mut BanTable, now: u64)
    ensures
        ban_table(*final(m)) == Map::new(
            |k: KeyModel| ban_table(*old(m)).contains_key(k) && live(
                record(ban_table(*old(m))[k]),
                now,
            ),
            |k: KeyModel| ban_table(*old(m))[k],
        ),
{
    m.retain(|_, e| is_live(e, now));
}

/// Relies on dashmap::DashMap::iter: the end of every entry, once each.
#[verifier::external_body]
fn table_expirations(m: &BanTable) -> (r: Vec<u64>)
    ensures
        forall|i: int|
            0 <= i < r@.len() ==> exists|k: KeyModel|
                #[trigger] ban_table(*m).contains_key(k) && ban_table(*m)[k].expires_at == #[trigger] r@[i],
        forall|k: KeyModel|
            #[trigger] ban_table(*m).contains_key(k) ==> exists|i: int|
                0 <= i < r@.len() && r@[i] == ban_table(*m)[k].expires_at,
{
    m.iter().map(|e| e.value().expires_at).collect()
}

/// Relies on dashmap::DashMap::iter: the key and score of every entry,
/// once each.
#[verifier::external_body]
fn table_listing(m: &BanTable) -> (r: Vec<(Key, u64)>)
    ensures
        forall|i: int|
            0 <= i < r@.len() ==> #[trigger] ban_table(*m).contains_key(r@[i].0@)
                && ban_table(*m)[r@[i].0@].data.score == r@[i].1,
        forall|k: KeyModel|
            #[trigger] ban_table(*m).contains_key(k) ==> exists|i: int|
                0 <= i < r@.len() && r@[i].0@ == k,
        forall|i: int, j: int| 0 <= i < j < r@.len() ==> r@[i].0@ != r@[j].0@,
{
    m.iter().map(|e| (e.key().clone(), e.value().data.score)).collect()
}

/// Whether a stored ban is still in force at `now`.
pub fn is_live(e: &BanEntry, now: u64) -> (r: bool)
    ensures
        r == live(record(*e), now),
{
    e.expires_at > now
}

/// Whether a ban is still in force at `now`.
pub open spec fn live(r: BanRecord, now: u64) -> bool {
    r.expires_at > now
}

/// The bans of `m` still in force at `now`.
pub open spec fn live_bans(m: Map<KeyModel, BanRecord>, now: u64) -> Map<KeyModel, BanRecord> {
    Map::new(|k: KeyModel| m.contains_key(k) && live(m[k], now), |k: KeyModel| m[k])
}

/// The earliest end among the bans of `m`.
pub open spec fn is_next_expiration(m: Map<KeyModel, BanRecord>, t: u64) -> bool {
    &&& exists|k: KeyModel| m.contains_key(k) && m[k].expires_at == t
    &&& forall|k: KeyModel| m.contains_key(k) ==> t <= #[trigger] m[k].expires_at
}

/// `a + b`, held at the top of the range.
pub open spec fn sat_add(a: u64, b: u64) -> u64 {
    if a + b > u64::MAX {
        u64::MAX
    } else {
        (a + b) as u64
    }
}

/// The bans of `m` once `k` is banned with `score` until `expires_at`: an
/// existing ban on `k` takes the new end and adds up the scores.
pub open spec fn after_ban(m: Map<KeyModel, BanRecord>, k: KeyModel, score: u64, expires_at: u64) -> Map<
    KeyModel,
    BanRecord,
> {
    m.insert(
        k,
        BanRecord {
            score: if m.contains_key(k) {
                sat_add(m[k].score, score)
            } else {
                score
            },
            expires_at,
        },
    )
}

/// Once the purge has run at or after its end, a ban is gone from the
/// table, and so the key passes `check_banned`.
pub proof fn lemma_ban_expires(
    m: Map<KeyModel, BanRecord>,
    k: KeyModel,
    t0: u64,
    d: u64,
    now: u64,
)
    requires
        m.contains_key(k),
        m[k].expires_at == t0 + d,
        now >= t0 + d,
    ensures
        !live_bans(m, now).contains_key(k),
{
}

/// Banning a key twice leaves one ban under it, with the sum of the two
/// scores (held at the top of the range) and the end of the later ban.
pub proof fn lemma_ban_extended(
    m: Map<KeyModel, BanRecord>,
    k: KeyModel,
    s1: u64,
    e1: u64,
    s2: u64,
    e2: u64,
)
    requires
        !m.contains_key(k),
        e1 <= e2,
    ensures
        after_ban(after_ban(m, k, s1, e1), k, s2, e2).dom() == m.dom().insert(k),
        after_ban(after_ban(m, k, s1, e1), k, s2, e2)[k] == (BanRecord {
            score: sat_add(s1, s2),
            expires_at: e2,
        }),
        after_ban(after_ban(m, k, s1, e1), k, s2, e2)[k].expires_at == vstd::math::max(
            e1 as int,
            e2 as int,
        ),
{
    assert(after_ban(after_ban(m, k, s1, e1), k, s2, e2).dom() =~= m.dom().insert(k));
}

/// Lifting a ban that was never added changes nothing.
pub proof fn lemma_remove_absent(m: Map<KeyModel, BanRecord>, k: KeyModel)
    requires
        !m.contains_key(k),
    ensures
        m.remove(k) == m,
{
    assert(m.remove(k) =~= m);
}

/// The default score of a ban.
pub const DEFAULT_BAN_SCORE: u64 = 10;

/// Keys banned for a while, each with a score and an end; time is in
/// milliseconds of one clock that the caller chooses.
pub struct BanManager {
    temp_bans: BanTable,
    enabled: bool,
    default_ban_length: u64,
}

impl BanManager {
    /// The bans in the table.
    pub closed spec fn bans(&self) -> Map<KeyModel, BanRecord> {
        Map::new(
            |k: KeyModel| ban_table(self.temp_bans).contains_key(k),
            |k: KeyModel| record(ban_table(self.temp_bans)[k]),
        )
    }

    pub closed spec fn is_enabled(&self) -> bool {
        self.enabled
    }

    pub closed spec fn default_length(&self) -> u64 {
        self.default_ban_length
    }

    /// Each entry is stored under its own address.
    pub closed spec fn wf(&self) -> bool {
        forall|k: KeyModel| #[trigger]
            ban_table(self.temp_bans).contains_key(k) ==> ban_table(
                self.temp_bans,
            )[k].data.address@ == k
    }

    /// An empty table; when `enabled` is false nothing is ever banned.
    pub fn new(enabled: bool, default_ban_length: u64) -> (r: BanManager)
        ensures
            r.wf(),
            r.bans() == Map::<KeyModel, BanRecord>::empty(),
            r.is_enabled() == enabled,
            r.default_length() == default_ban_length,
    {
        let r = BanManager { temp_bans: table_new(), enabled, default_ban_length };
        proof {
            assert(r.bans() =~= Map::<KeyModel, BanRecord>::empty());
        }
        r
    }

    /// Fails with `ConnectionBanned` exactly when `key` is in the table.
    pub fn check_banned(&self, key: Key) -> (r: Result<(), Error>)
        requires
            self.wf(),
        ensures
            r is Ok <==> !self.bans().contains_key(key@),
            r is Err ==> r->Err_0 is ConnectionBanned && r->Err_0->ConnectionBanned_0@ == key@,
    {
        match table_get(&self.temp_bans, &key) {
            Some(_) => Err(Error::ConnectionBanned(key)),
            None => Ok(()),
        }
    }

    /// Bans `key` from `now` for `duration` with `score`. A key already
    /// banned gets the new end and the sum of the scores; both sums stop at
    /// the top of the range. Nothing happens when the table is disabled or
    /// the key is a loopback or unspecified address.
    pub fn add_ban_scored_at(&mut self, key: Key, score: u64, duration: u64, now: u64)
        requires
            old(self).wf(),
        ensures
            final(self).wf(),
            final(self).is_enabled() == old(self).is_enabled(),
            final(self).default_length() == old(self).default_length(),
            !old(self).is_enabled() || whitelisted(key@) ==> final(self).bans() == old(
                self,
            ).bans(),
            old(self).is_enabled() && !whitelisted(key@) ==> final(self).bans() == after_ban(
                old(self).bans(),
                key@,
                score,
                sat_add(now, duration),
            ),
    {
        if !self.enabled || key.is_whitelisted() {
            return;
        }
        let expires_at: u64 = now.saturating_add(duration);
        let new_score: u64 = match table_get(&self.temp_bans, &key) {
            Some((old_score, _)) => old_score.saturating_add(score),
            None => score,
        };
        let stored = key.duplicate();
        let e = BanEntry { data: BanInfo { address: stored, score: new_score }, expires_at };
        table_insert(&mut self.temp_bans, key, e);
        proof {
            assert(self.bans() =~= after_ban(old(self).bans(), key@, score, expires_at));
        }
    }

    /// Bans `key` with `score` for `duration` milliseconds from the current
    /// time.
    pub fn add_ban_scored(&mut self, key: Key, score: u64, duration: u64)
        requires
            old(self).wf(),
        ensures
            final(self).wf(),
            final(self).is_enabled() == old(self).is_enabled(),
            final(self).default_length() == old(self).default_length(),
            !old(self).is_enabled() || whitelisted(key@) ==> final(self).bans() == old(
                self,
            ).bans(),
            old(self).is_enabled() && !whitelisted(key@) ==> exists|t: u64|
                final(self).bans() == #[trigger] after_ban(
                    old(self).bans(),
                    key@,
                    score,
                    sat_add(t, duration),
                ),
    {
        let t = clock_ms();
        self.add_ban_scored_at(key, score, duration, t);
    }

    /// Bans `key` with the default score and length from `now`.
    pub fn add_ban_at(&mut self, key: Key, now: u64)
        requires
            old(self).wf(),
        ensures
            final(self).wf(),
            final(self).is_enabled() == old(self).is_enabled(),
            final(self).default_length() == old(self).default_length(),
            !old(self).is_enabled() || whitelisted(key@) ==> final(self).bans() == old(
                self,
            ).bans(),
            old(self).is_enabled() && !whitelisted(key@) ==> final(self).bans() == after_ban(
                old(self).bans(),
                key@,
                DEFAULT_BAN_SCORE,
                sat_add(now, old(self).default_length()),
            ),
    {
        let length = self.default_ban_length;
        self.add_ban_scored_at(key, DEFAULT_BAN_SCORE, length, now);
    }

    /// Bans `key` with the default score and length from the current time.
    pub fn add_ban(&mut self, key: Key)
        requires
            old(self).wf(),
        ensures
            final(self).wf(),
            final(self).is_enabled() == old(self).is_enabled(),
            final(self).default_length() == old(self).default_length(),
            !old(self).is_enabled() || whitelisted(key@) ==> final(self).bans() == old(
                self,
            ).bans(),
            old(self).is_enabled() && !whitelisted(key@) ==> exists|t: u64|
                final(self).bans() == #[trigger] after_ban(
                    old(self).bans(),
                    key@,
                    DEFAULT_BAN_SCORE,
                    sat_add(t, old(self).default_length()),
                ),
    {
        let length = self.default_ban_length;
        self.add_ban_scored(key, DEFAULT_BAN_SCORE, length);
    }

    /// Lifts the ban on `key` and returns it; `None`, changing nothing, when
    /// there was none.
    pub fn remove_ban(&mut self, key: Key) -> (r: Option<BanInfo>)
        requires
            old(self).wf(),
        ensures
            final(self).wf(),
            final(self).is_enabled() == old(self).is_enabled(),
            final(self).default_length() == old(self).default_length(),
            final(self).bans() == old(self).bans().remove(key@),
            r is None <==> !old(self).bans().contains_key(key@),
            r is Some ==> r->0.address@ == key@ && r->0.score == old(self).bans()[key@].score,
    {
        let r = table_remove(&mut self.temp_bans, &key);
        proof {
            assert(self.bans() =~= old(self).bans().remove(key@));
        }
        match r {
            Some(e) => Some(e.data),
            None => None,
        }
    }

    /// Every ban in the table, once each.
    pub fn temp_bans(&self) -> (r: Vec<BanInfo>)
        requires
            self.wf(),
        ensures
            forall|i: int|
                0 <= i < r@.len() ==> self.bans().contains_key(#[trigger] r@[i].address@)
                    && r@[i].score == self.bans()[r@[i].address@].score,
            forall|k: KeyModel|
                self.bans().contains_key(k) ==> exists|i: int|
                    0 <= i < r@.len() && #[trigger] r@[i].address@ == k,
            forall|i: int, j: int|
                0 <= i < j < r@.len() ==> r@[i].address@ != r@[j].address@,
    {
        let listing = table_listing(&self.temp_bans);
        let mut r: Vec<BanInfo> = Vec::new();
        let mut i: usize = 0;
        while i < listing.len()
            invariant
                i <= listing@.len(),
                r@.len() == i,
                forall|j: int|
                    0 <= j < i ==> (#[trigger] r@[j]).address@ == listing@[j].0@ && r@[j].score
                        == listing@[j].1,
            decreases listing@.len() - i,
        {
            r.push(BanInfo { address: listing[i].0.duplicate(), score: listing[i].1 });
            i = i + 1;
        }
        proof {
            assert forall|k: KeyModel| self.bans().contains_key(k) implies exists|j: int|
                0 <= j < r@.len() && #[trigger] r@[j].address@ == k by {
                assert(ban_table(self.temp_bans).contains_key(k));
                let j = choose|j: int| 0 <= j < listing@.len() && listing@[j].0@ == k;
                assert(r@[j].address@ == k);
            }
        }
        r
    }

    /// Drops every ban that has ended by `now` and returns the end of the
    /// earliest one left, if any.
    pub fn purge_expired_at(&mut self, now: u64) -> (r: Option<u64>)
        requires
            old(self).wf(),
        ensures
            final(self).wf(),
            final(self).is_enabled() == old(self).is_enabled(),
            final(self).default_length() == old(self).default_length(),
            final(self).bans() == live_bans(old(self).bans(), now),
            r is None <==> final(self).bans().is_empty(),
            r is Some ==> is_next_expiration(final(self).bans(), r->0),
    {
        table_retain_live(&mut self.temp_bans, now);
        proof {
            assert(self.bans() =~= live_bans(old(self).bans(), now));
        }
        let ends = table_expirations(&self.temp_bans);
        let mut next: Option<u64> = None;
        let mut i: usize = 0;
        while i < ends.len()
            invariant
                i <= ends@.len(),
                next is None <==> i == 0,
                next is Some ==> (exists|j: int| 0 <= j < i && ends@[j] == next->0) && forall|
                    j: int,
                | 0 <= j < i ==> next->0 <= #[trigger] ends@[j],
            decreases ends@.len() - i,
        {
            let t = ends[i];
            next = match next {
                None => Some(t),
                Some(m) => if t < m {
                    Some(t)
                } else {
                    Some(m)
                },
            };
            i = i + 1;
        }
        proof {
            let t = ban_table(self.temp_bans);
            if next is None {
                assert forall|k: KeyModel| !#[trigger] t.contains_key(k) by {
                    if t.contains_key(k) {
                        let j = choose|j: int| 0 <= j < ends@.len() && ends@[j] == t[k].expires_at;
                    }
                }
                assert(self.bans().dom() =~= Set::empty());
            } else {
                let j = choose|j: int| 0 <= j < ends@.len() && ends@[j] == next->0;
                let k = choose|k: KeyModel| #[trigger]
                    t.contains_key(k) && t[k].expires_at == ends@[j];
                assert(self.bans().contains_key(k));
                assert forall|k2: KeyModel| self.bans().contains_key(k2) implies next->0
                    <= #[trigger] self.bans()[k2].expires_at by {
                    assert(t.contains_key(k2));
                    let j2 = choose|j2: int| 0 <= j2 < ends@.len() && ends@[j2] == t[k2].expires_at;
                }
                assert(self.bans().dom().contains(k));
            }
        }
        next
    }

    /// Drops every ban that has ended by the current time; returns the end
    /// of the earliest one left, if any.
    pub fn purge_expired_keys(&mut self) -> (r: Option<u64>)
        requires
            old(self).wf(),
        ensures
            final(self).wf(),
            final(self).is_enabled() == old(self).is_enabled(),
            final(self).default_length() == old(self).default_length(),
            exists|t: u64| final(self).bans() == live_bans(old(self).bans(), t),
    {
        let t = clock_ms();
        self.purge_expired_at(t)
    }
}

/// The current time in milliseconds, held within the range of a `u64`.
fn clock_ms() -> u64 {
    let t = now();
    if t > u64::MAX as u128 {
        u64::MAX
    } else {
        t as u64
    }
}

} // verus!
