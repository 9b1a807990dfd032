use vstd::prelude::*;
use tokio::sync::mpsc::UnboundedSender;
use tokio_util::sync::CancellationToken;
use crate::ban_manager::SocketAddress;
use crate::config::ConfigManager;
use crate::difficulty::{round_difficulty, Difficulties, Difficulty, DifficultySettings};
use crate::error::Error;
use crate::miner::{Miner, ShareKind, share_recorded};
use crate::miner_list::MinerList;
use crate::session_id::SessionID;
use crate::types::ConnectionID;
use crate::utils::now;

verus! {

#[verifier::external_type_specification]
#[verifier::external_body]
pub struct ExCancellationToken(tokio_util::sync::CancellationToken);

#[verifier::external_type_specification]
#[verifier::external_body]
#[verifier::reject_recursive_types(T)]
pub struct ExUnboundedSender<T>(tokio::sync::mpsc::UnboundedSender<T>);

/// Whether cancellation was asked of a token: once it is, the token and
/// its children report `is_cancelled` for good.
pub uninterp spec fn cancel_requested(t: CancellationToken) -> bool;

/// The items a sender has handed to its channel, oldest first.
pub uninterp spec fn handed_over(s: UnboundedSender<SendInformation>) -> Seq<SendModel>;

/// Relies on tokio_util's CancellationToken::cancel: the token is
/// cancelled from then on, and every task waiting on it or on one of its
/// children wakes.
#[verifier::external_body]
fn cancel_token(token: &mut CancellationToken)
    ensures
        cancel_requested(*final(token)),
{
    token.cancel();
}

/// Relies on tokio's UnboundedSender::send: `Ok` means `message` was put
/// on the channel, behind the items sent before; an error means the
/// receiving side is gone and nothing was queued. Which of the two comes
/// depends on the writer task.
#[verifier::external_body]
fn queue_message(sender: &mut UnboundedSender<SendInformation>, message: SendInformation) -> (r:
    bool)
    ensures
        r ==> handed_over(*final(sender)) == handed_over(*old(sender)).push(message@),
        !r ==> handed_over(*final(sender)) == handed_over(*old(sender)),
{
    sender.send(message).is_ok()
}

/// Seconds a read may wait once the session is long-lived: one week.
pub const LONG_TIMEOUT_SECS: u64 = 604_800;

/// Seconds a read may wait once the session is subscribed and authorized.
pub const ACTIVE_TIMEOUT_SECS: u64 = 600;

/// Seconds a read may wait before the handshake is done.
pub const INITIAL_TIMEOUT_SECS: u64 = 15;

/// What is known of the peer of a session.
#[derive(Debug)]
pub struct SessionInfo {
    pub agent: bool,
    pub authorized: bool,
    pub subscribed: bool,
    pub client: Option<String>,
    /// Milliseconds since the Unix epoch at which the session started.
    pub session_start: u128,
    pub is_long_timeout: bool,
}

impl SessionInfo {
    pub fn new() -> (r: SessionInfo)
        ensures
            !r.agent && !r.authorized && !r.subscribed && r.client.is_none() && !r.is_long_timeout,
    {
        SessionInfo {
            agent: false,
            authorized: false,
            subscribed: false,
            client: None,
            session_start: now(),
            is_long_timeout: false,
        }
    }

    /// A copy of this record.
    pub fn duplicate(&self) -> (r: SessionInfo)
        ensures
            r == *self,
    {
        SessionInfo {
            agent: self.agent,
            authorized: self.authorized,
            subscribed: self.subscribed,
            client: match &self.client {
                Some(c) => Some(c.clone()),
                None => None,
            },
            session_start: self.session_start,
            is_long_timeout: self.is_long_timeout,
        }
    }
}

/// Whether a session is still open.
#[derive(Clone, Copy, PartialEq, Eq, Structural, Debug)]
pub enum SessionState {
    Connected,
    Disconnected,
}

/// One item for the writer task: JSON gets a newline after it, text and
/// raw bytes go out as they are.
#[derive(Debug)]
pub enum SendInformation {
    Json(String),
    Text(String),
    Raw(Vec<u8>),
}

/// An item for the writer task as plain values.
pub ghost enum SendModel {
    Json(Seq<char>),
    Text(Seq<char>),
    Raw(Seq<u8>),
}

impl View for SendInformation {
    type V = SendModel;

    open spec fn view(&self) -> SendModel {
        match self {
            SendInformation::Json(s) => SendModel::Json(s@),
            SendInformation::Text(s) => SendModel::Text(s@),
            SendInformation::Raw(b) => SendModel::Raw(b@),
        }
    }
}

/// The client prefix that marks an agent multiplexing many workers.
pub open spec fn agent_prefix() -> Seq<char> {
    seq!['b', 't', 'c', 'c', 'o', 'm', '-', 'a', 'g', 'e', 'n', 't', '/']
}

/// Whether `s` begins with `prefix`.
pub fn starts_with(s: &str, prefix: &str) -> (r: bool)
    ensures
        r == prefix@.is_prefix_of(s@),
{
    let n = prefix.unicode_len();
    if n > s.unicode_len() {
        return false;
    }
    let mut i: usize = 0;
    while i < n
        invariant
            n == prefix@.len(),
            n <= s@.len(),
            i <= n,
            forall|j: int| 0 <= j < i ==> prefix@[j] == s@[j],
        decreases n - i,
    {
        if prefix.get_char(i) != s.get_char(i) {
            return false;
        }
        i = i + 1;
    }
    true
}

/// The read deadline of a session, in seconds: a week once long-lived, ten
/// minutes once subscribed and authorized, fifteen seconds before that.
pub open spec fn timeout_secs(info: SessionInfo) -> u64 {
    if info.is_long_timeout {
        LONG_TIMEOUT_SECS
    } else if info.subscribed && info.authorized {
        ACTIVE_TIMEOUT_SECS
    } else {
        INITIAL_TIMEOUT_SECS
    }
}

/// The handle user code holds on one connection: its identity, workers,
/// status and what is known of the peer.
pub struct Session<State> {
    id: ConnectionID,
    session_id: SessionID,
    ip: SocketAddress,
    state: State,
    config_manager: ConfigManager,
    cancel_token: CancellationToken,
    miner_list: MinerList,
    status: SessionState,
    sender: UnboundedSender<SendInformation>,
    needs_ban: bool,
    last_active: u128,
    info: SessionInfo,
    difficulty_settings: DifficultySettings,
}

impl<State> Session<State> {
    pub closed spec fn spec_status(&self) -> SessionState {
        self.status
    }

    pub closed spec fn spec_needs_ban(&self) -> bool {
        self.needs_ban
    }

    pub closed spec fn spec_info(&self) -> SessionInfo {
        self.info
    }

    pub closed spec fn spec_last_active(&self) -> u128 {
        self.last_active
    }

    pub closed spec fn spec_settings(&self) -> DifficultySettings {
        self.difficulty_settings
    }

    pub closed spec fn spec_workers(&self) -> Map<u32, Miner> {
        self.miner_list.workers()
    }

    pub closed spec fn config(&self) -> crate::config::Config {
        self.config_manager@
    }

    pub closed spec fn spec_session_id(&self) -> SessionID {
        self.session_id
    }

    pub closed spec fn spec_ip(&self) -> SocketAddress {
        self.ip
    }

    pub closed spec fn spec_id(&self) -> ConnectionID {
        self.id
    }

    pub closed spec fn spec_state(&self) -> State {
        self.state
    }

    /// What the session has handed to its writer, oldest first.
    pub closed spec fn spec_sent(&self) -> Seq<SendModel> {
        handed_over(self.sender)
    }

    /// Whether the session's token has been cancelled.
    pub closed spec fn spec_cancelled(&self) -> bool {
        cancel_requested(self.cancel_token)
    }

    /// Everything but the handed-over items is the same in `a` and `b`.
    pub open spec fn same_but_sent(a: &Self, b: &Self) -> bool {
        &&& b.spec_status() == a.spec_status()
        &&& b.spec_needs_ban() == a.spec_needs_ban()
        &&& b.spec_workers() == a.spec_workers()
        &&& b.spec_info() == a.spec_info()
        &&& b.spec_last_active() == a.spec_last_active()
        &&& b.spec_settings() == a.spec_settings()
        &&& b.config() == a.config()
        &&& b.spec_session_id() == a.spec_session_id()
        &&& b.spec_ip() == a.spec_ip()
        &&& b.spec_id() == a.spec_id()
        &&& b.spec_state() == a.spec_state()
        &&& b.spec_cancelled() == a.spec_cancelled()
        &&& b.wf() == a.wf()
    }

    pub closed spec fn wf(&self) -> bool {
        self.miner_list.wf()
    }

    /// An open session with no worker, starting at the configured initial
    /// and minimum difficulties.
    pub fn new(
        id: ConnectionID,
        session_id: SessionID,
        ip: SocketAddress,
        sender: UnboundedSender<SendInformation>,
        config_manager: ConfigManager,
        cancel_token: CancellationToken,
        state: State,
    ) -> (r: Result<Session<State>, Error>)
        ensures
            r is Ok,
            ({
                let s = r->Ok_0;
                &&& s.wf()
                &&& s.spec_status() == SessionState::Connected
                &&& !s.spec_needs_ban()
                &&& s.spec_workers() == Map::<u32, Miner>::empty()
                &&& s.spec_session_id() == session_id
                &&& s.spec_id() == id
                &&& s.spec_state() == state
                &&& s.spec_ip() == ip
                &&& s.config() == config_manager@
                &&& s.spec_settings().default.value() == round_difficulty(
                    config_manager@.difficulty.initial_difficulty as nat,
                )
                &&& s.spec_settings().minimum.value() == round_difficulty(
                    config_manager@.difficulty.minimum_difficulty as nat,
                )
                &&& !s.spec_info().authorized && !s.spec_info().subscribed
                &&& !s.spec_info().is_long_timeout && !s.spec_info().agent
                &&& s.spec_info().client.is_none()
            }),
    {
        let initial = config_manager.difficulty_config().initial_difficulty;
        let minimum = config_manager.difficulty_config().minimum_difficulty;
        Ok(
            Session {
                id,
                session_id,
                ip,
                state,
                config_manager,
                cancel_token,
                miner_list: MinerList::new(),
                status: SessionState::Connected,
                sender,
                needs_ban: false,
                last_active: now(),
                info: SessionInfo::new(),
                difficulty_settings: DifficultySettings {
                    default: Difficulty::from(initial),
                    minimum: Difficulty::from(minimum),
                },
            },
        )
    }

    pub fn is_disconnected(&self) -> (r: bool)
        ensures
            r == (self.spec_status() == SessionState::Disconnected),
    {
        self.status == SessionState::Disconnected
    }

    /// The outcome of sending `message` at `now`: a closed session refuses
    /// it and stays as it is; a session idle for longer than the active
    /// timeout is banned and closed, and the message dropped; otherwise the
    /// message is handed to the writer, which may be gone.
    pub open spec fn send_outcome(
        a: &Self,
        b: &Self,
        message: Seq<char>,
        r: Result<(), Error>,
        now: u128,
    ) -> bool {
        &&& r is Err ==> r->Err_0 is WriterSendFailure
        &&& a.spec_status() == SessionState::Disconnected ==> r is Err && *b == *a
        &&& a.spec_status() == SessionState::Connected && now - a.spec_last_active()
            > a.config().connection.active_timeout * 1000 ==> {
            &&& r is Ok
            &&& b.spec_needs_ban()
            &&& b.spec_status() == SessionState::Disconnected
            &&& b.spec_cancelled()
            &&& b.spec_sent() == a.spec_sent()
        }
        &&& a.spec_status() == SessionState::Connected && now - a.spec_last_active()
            <= a.config().connection.active_timeout * 1000 ==> {
            &&& r is Ok ==> b.spec_sent() == a.spec_sent().push(SendModel::Json(message))
            &&& r is Err ==> b.spec_sent() == a.spec_sent()
            &&& Self::same_but_sent(a, b)
        }
        &&& b.spec_workers() == a.spec_workers()
        &&& b.spec_info() == a.spec_info()
        &&& b.spec_last_active() == a.spec_last_active()
        &&& b.spec_settings() == a.spec_settings()
        &&& b.config() == a.config()
        &&& b.wf() == a.wf()
    }

    /// Queues a serialized JSON message at `now`, as `send_outcome` says.
    pub fn send_at(&mut self, message: String, now: u128) -> (r: Result<(), Error>)
        ensures
            Self::send_outcome(old(self), final(self), message@, r, now),
    {
        if self.is_disconnected() {
            return Err(Error::WriterSendFailure);
        }
        let limit: u128 = self.config_manager.connection_config().active_timeout as u128 * 1000;
        if now > self.last_active && now - self.last_active > limit {
            self.ban();
            return Ok(());
        }
        if queue_message(&mut self.sender, SendInformation::Json(message)) {
            Ok(())
        } else {
            Err(Error::WriterSendFailure)
        }
    }

    /// Queues a serialized JSON message at the current time.
    pub fn send(&mut self, message: String) -> (r: Result<(), Error>)
        ensures
            exists|t: u128| #[trigger] Self::send_outcome(old(self), final(self), message@, r, t),
    {
        let t = now();
        self.send_at(message, t)
    }

    /// Queues raw bytes; a closed session refuses them, else they go to the
    /// writer, which may be gone.
    pub fn send_raw(&mut self, message: Vec<u8>) -> (r: Result<(), Error>)
        ensures
            old(self).spec_status() == SessionState::Disconnected ==> r is Err && r->Err_0 is WriterSendFailure
                && *final(self) == *old(self),
            r is Err ==> r->Err_0 is WriterSendFailure,
            r is Ok ==> final(self).spec_sent() == old(self).spec_sent().push(
                SendModel::Raw(message@),
            ),
            r is Err ==> final(self).spec_sent() == old(self).spec_sent(),
            Self::same_but_sent(old(self), final(self)),
    {
        if self.is_disconnected() {
            return Err(Error::WriterSendFailure);
        }
        if queue_message(&mut self.sender, SendInformation::Raw(message)) {
            Ok(())
        } else {
            Err(Error::WriterSendFailure)
        }
    }

    /// Closes the session and cancels its token, so that its writer and
    /// anything waiting on it stop.
    pub fn shutdown(&mut self)
        ensures
            final(self).spec_status() == SessionState::Disconnected,
            final(self).spec_cancelled(),
            final(self).spec_sent() == old(self).spec_sent(),
            final(self).spec_needs_ban() == old(self).spec_needs_ban(),
            final(self).spec_workers() == old(self).spec_workers(),
            final(self).spec_info() == old(self).spec_info(),
            final(self).spec_last_active() == old(self).spec_last_active(),
            final(self).spec_settings() == old(self).spec_settings(),
            final(self).config() == old(self).config(),
            final(self).wf() == old(self).wf(),
    {
        self.disconnect();
        cancel_token(&mut self.cancel_token);
    }

    /// Marks the session closed; its handler ends it.
    pub fn disconnect(&mut self)
        ensures
            final(self).spec_status() == SessionState::Disconnected,
            final(self).spec_cancelled() == old(self).spec_cancelled(),
            final(self).spec_sent() == old(self).spec_sent(),
            final(self).spec_needs_ban() == old(self).spec_needs_ban(),
            final(self).spec_workers() == old(self).spec_workers(),
            final(self).spec_info() == old(self).spec_info(),
            final(self).spec_last_active() == old(self).spec_last_active(),
            final(self).spec_settings() == old(self).spec_settings(),
            final(self).config() == old(self).config(),
            final(self).wf() == old(self).wf(),
    {
        self.status = SessionState::Disconnected;
    }

    /// Flags the peer for a ban and closes the session.
    pub fn ban(&mut self)
        ensures
            final(self).spec_status() == SessionState::Disconnected,
            final(self).spec_needs_ban(),
            final(self).spec_cancelled(),
            final(self).spec_sent() == old(self).spec_sent(),
            final(self).spec_workers() == old(self).spec_workers(),
            final(self).spec_info() == old(self).spec_info(),
            final(self).spec_last_active() == old(self).spec_last_active(),
            final(self).spec_settings() == old(self).spec_settings(),
            final(self).config() == old(self).config(),
            final(self).wf() == old(self).wf(),
    {
        self.needs_ban = true;
        self.shutdown();
    }

    pub fn needs_ban(&self) -> (r: bool)
        ensures
            r == self.spec_needs_ban(),
    {
        self.needs_ban
    }

    pub fn id(&self) -> (r: &ConnectionID)
        ensures
            *r == self.spec_id(),
    {
        &self.id
    }

    /// `b` is `a` with a worker registered under `session_id` at `now`,
    /// starting from the session's difficulty settings.
    pub open spec fn registered(
        a: &Self,
        b: &Self,
        session_id: SessionID,
        client: Option<String>,
        worker_name: Option<String>,
        worker_id: uuid::Uuid,
        now: u128,
    ) -> bool {
        &&& b.wf()
        &&& b.spec_workers().dom() == a.spec_workers().dom().insert(session_id@)
        &&& forall|k: u32|
            k != session_id@ && a.spec_workers().contains_key(k) ==> b.spec_workers()[k]
                == a.spec_workers()[k]
        &&& Miner::fresh(
            b.spec_workers()[session_id@],
            a.spec_id(),
            worker_id,
            session_id,
            client,
            worker_name,
            a.config(),
            a.spec_settings(),
            now,
        )
        &&& b.spec_status() == a.spec_status()
        &&& b.spec_settings() == a.spec_settings()
        &&& b.spec_sent() == a.spec_sent()
    }

    /// Adds a worker under `session_id` at `now`, as `registered` says.
    pub fn register_worker_at(
        &mut self,
        session_id: SessionID,
        client: Option<String>,
        worker_name: Option<String>,
        worker_id: uuid::Uuid,
        now: u128,
    )
        requires
            old(self).wf(),
        ensures
            Self::registered(old(self), final(self), session_id, client, worker_name, worker_id, now),
    {
        let worker = Miner::new_at(
            self.id,
            worker_id,
            session_id,
            client,
            worker_name,
            self.config_manager.snapshot(),
            self.difficulty_settings,
            now,
        );
        self.miner_list.add_miner(session_id, worker);
    }

    /// Adds a worker under `session_id` at the current time.
    pub fn register_worker(
        &mut self,
        session_id: SessionID,
        client: Option<String>,
        worker_name: Option<String>,
        worker_id: uuid::Uuid,
    )
        requires
            old(self).wf(),
        ensures
            exists|t: u128| #[trigger]
                Self::registered(old(self), final(self), session_id, client, worker_name, worker_id, t),
    {
        let t = now();
        self.register_worker_at(session_id, client, worker_name, worker_id, t);
    }

    pub fn unregister_worker(&mut self, session_id: SessionID) -> (r: Option<(SessionID, Miner)>)
        requires
            old(self).wf(),
        ensures
            final(self).wf(),
            final(self).spec_workers() == old(self).spec_workers().remove(session_id@),
            r is None <==> !old(self).spec_workers().contains_key(session_id@),
            r is Some ==> (r->0).1 == old(self).spec_workers()[session_id@],
    {
        self.miner_list.remove_miner(session_id)
    }

    pub fn get_miner_list(&self) -> &MinerList {
        &self.miner_list
    }

    pub fn get_worker_by_session_id(&self, session_id: SessionID) -> (r: Option<&Miner>)
        requires
            self.wf(),
        ensures
            r is None <==> !self.spec_workers().contains_key(session_id@),
            r is Some ==> *r->0 == self.spec_workers()[session_id@],
    {
        self.miner_list.get_miner_by_id(session_id)
    }

    /// Replaces the worker under `session_id`, when there is one.
    pub fn update_worker_by_session_id(&mut self, session_id: SessionID, miner: Miner)
        requires
            old(self).wf(),
            miner.wf(),
        ensures
            final(self).wf(),
            final(self).spec_workers() == if old(self).spec_workers().contains_key(session_id@) {
                old(self).spec_workers().insert(session_id@, miner)
            } else {
                old(self).spec_workers()
            },
    {
        self.miner_list.update_miner_by_session_id(session_id, miner);
    }

    /// Counts a share of `kind` at `now` for the worker under `session_id`;
    /// returns whether there was one.
    pub fn record_share_at(&mut self, session_id: SessionID, kind: ShareKind, now: u128) -> (r:
        bool)
        requires
            old(self).wf(),
        ensures
            final(self).wf(),
            r == old(self).spec_workers().contains_key(session_id@),
            final(self).spec_workers().dom() == old(self).spec_workers().dom(),
            r ==> share_recorded(
                old(self).spec_workers()[session_id@],
                final(self).spec_workers()[session_id@],
                kind,
                now,
            ),
    {
        self.miner_list.record_share_at(session_id, kind, now)
    }

    /// Records the client string; a client whose name starts with
    /// `btccom-agent/` is an agent and gets the long timeout.
    pub fn set_client(&mut self, client: &str)
        ensures
            final(self).spec_info().client is Some && final(self).spec_info().client->0@ == client@,
            final(self).spec_info().agent == agent_prefix().is_prefix_of(client@),
            final(self).spec_info().is_long_timeout == agent_prefix().is_prefix_of(client@),
            final(self).spec_info().authorized == old(self).spec_info().authorized,
            final(self).spec_info().subscribed == old(self).spec_info().subscribed,
            final(self).spec_status() == old(self).spec_status(),
            final(self).spec_workers() == old(self).spec_workers(),
            final(self).wf() == old(self).wf(),
    {
        proof {
            reveal_strlit("btccom-agent/");
        }
        let agent = starts_with(client, "btccom-agent/");
        self.info.agent = agent;
        self.info.client = Some(String::from_str(client));
        self.info.is_long_timeout = agent;
    }

    pub fn get_connection_info(&self) -> (r: SessionInfo)
        ensures
            r == self.spec_info(),
    {
        self.info.duplicate()
    }

    pub fn is_long_timeout(&self) -> (r: bool)
        ensures
            r == self.spec_info().is_long_timeout,
    {
        self.info.is_long_timeout
    }

    /// The read deadline, in seconds, as `timeout_secs` gives it.
    pub fn timeout(&self) -> (r: u64)
        ensures
            r == timeout_secs(self.spec_info()),
    {
        if self.info.is_long_timeout {
            LONG_TIMEOUT_SECS
        } else if self.info.subscribed && self.info.authorized {
            ACTIVE_TIMEOUT_SECS
        } else {
            INITIAL_TIMEOUT_SECS
        }
    }

    pub fn get_session_id(&self) -> (r: SessionID)
        ensures
            r == self.spec_session_id(),
    {
        self.session_id
    }

    pub fn authorized(&self) -> (r: bool)
        ensures
            r == self.spec_info().authorized,
    {
        self.info.authorized
    }

    pub fn authorize(&mut self)
        ensures
            final(self).spec_info() == (SessionInfo { authorized: true, ..old(self).spec_info() }),
            final(self).spec_status() == old(self).spec_status(),
            final(self).spec_workers() == old(self).spec_workers(),
            final(self).wf() == old(self).wf(),
    {
        self.info.authorized = true;
    }

    pub fn subscribed(&self) -> (r: bool)
        ensures
            r == self.spec_info().subscribed,
    {
        self.info.subscribed
    }

    pub fn subscribe(&mut self)
        ensures
            final(self).spec_info() == (SessionInfo { subscribed: true, ..old(self).spec_info() }),
            final(self).spec_status() == old(self).spec_status(),
            final(self).spec_workers() == old(self).spec_workers(),
            final(self).wf() == old(self).wf(),
    {
        self.info.subscribed = true;
    }

    pub fn is_agent(&self) -> (r: bool)
        ensures
            r == self.spec_info().agent,
    {
        self.info.agent
    }

    /// Forces the difficulty of the worker under `session_id`.
    pub fn set_difficulty(&mut self, session_id: SessionID, difficulty: Difficulty)
        requires
            old(self).wf(),
        ensures
            final(self).wf(),
            final(self).spec_workers().dom() == old(self).spec_workers().dom(),
            old(self).spec_workers().contains_key(session_id@) ==> final(self).spec_workers()[session_id@].spec_difficulties().current == difficulty,
    {
        self.miner_list.set_difficulty(session_id, difficulty);
    }

    /// Sets the difficulty that workers registered from now on start at.
    pub fn set_default_difficulty(&mut self, difficulty: Difficulty)
        ensures
            final(self).spec_settings() == (DifficultySettings {
                default: difficulty,
                ..old(self).spec_settings()
            }),
            final(self).spec_workers() == old(self).spec_workers(),
            final(self).wf() == old(self).wf(),
    {
        self.difficulty_settings.default = difficulty;
    }

    /// Sets the session's floor for retargeting, unless it lies below the
    /// configured minimum.
    pub fn set_minimum_difficulty(&mut self, difficulty: Difficulty)
        ensures
            final(self).spec_settings() == if difficulty.value()
                >= old(self).config().difficulty.minimum_difficulty {
                DifficultySettings { minimum: difficulty, ..old(self).spec_settings() }
            } else {
                old(self).spec_settings()
            },
            final(self).spec_workers() == old(self).spec_workers(),
            final(self).wf() == old(self).wf(),
    {
        if difficulty.as_u64() >= self.config_manager.difficulty_config().minimum_difficulty {
            self.difficulty_settings.minimum = difficulty;
        }
    }

    pub fn get_difficulties(&self, session_id: SessionID) -> (r: Option<Difficulties>)
        requires
            self.wf(),
        ensures
            r is None <==> !self.spec_workers().contains_key(session_id@),
            r is Some ==> r->0 == self.spec_workers()[session_id@].spec_difficulties(),
    {
        self.miner_list.difficulties(session_id)
    }

    pub fn state(&self) -> (r: &State)
        ensures
            *r == self.spec_state(),
    {
        &self.state
    }

    /// Makes the pending difficulty of the worker under `session_id`
    /// current and returns it.
    pub fn update_difficulty(&mut self, session_id: SessionID) -> (r: Option<Difficulty>)
        requires
            old(self).wf(),
        ensures
            final(self).wf(),
            !old(self).spec_workers().contains_key(session_id@) ==> r is None,
            old(self).spec_workers().contains_key(session_id@) ==> {
                let a = old(self).spec_workers()[session_id@];
                &&& a.spec_difficulties().next.value() == 0 ==> r is None
                &&& a.spec_difficulties().next.value() != 0 ==> r == Some(
                    a.spec_difficulties().next,
                )
            },
    {
        self.miner_list.update_difficulty(session_id)
    }

    /// Notes activity at `now`.
    pub fn active_at(&mut self, now: u128)
        ensures
            final(self).spec_last_active() == now,
            final(self).spec_status() == old(self).spec_status(),
            final(self).spec_info() == old(self).spec_info(),
            final(self).spec_workers() == old(self).spec_workers(),
            final(self).wf() == old(self).wf(),
    {
        self.last_active = now;
    }

    /// Notes activity at the current time.
    pub fn active(&mut self)
        ensures
            final(self).spec_status() == old(self).spec_status(),
            final(self).spec_workers() == old(self).spec_workers(),
            final(self).wf() == old(self).wf(),
    {
        self.active_at(now());
    }

    pub fn ip(&self) -> (r: SocketAddress)
        ensures
            r == self.spec_ip(),
    {
        self.ip
    }
}

} // verus!
