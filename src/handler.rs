use vstd::prelude::*;
use crate::ban_manager::{after_ban, sat_add, whitelisted, BanManager, Key, KeyModel, DEFAULT_BAN_SCORE};
use crate::error::Error;
use crate::id_manager::{compose_id, first_free_from, index_space, IDManager};
use crate::session::{Session, SessionState};
use crate::session_id::SessionID;

verus! {

/// What ended a wait of the connection handler.
#[derive(Debug)]
pub enum HandlerEvent {
    /// A line to dispatch.
    Frame(String),
    /// The peer closed the stream.
    EndOfStream,
    /// Reading failed: a reset, a bad frame or an I/O error.
    ReadFailed,
    /// The read deadline of the session elapsed.
    DeadlineElapsed,
    /// The session's or the server's token was cancelled.
    Cancelled,
}

/// What the handler does next.
#[derive(Debug)]
pub enum HandlerStep {
    /// Hand the frame to the router, then read again.
    Dispatch(String),
    /// Leave the message loop and clean up.
    Close,
}

/// Whether the handler reads another frame: only while neither the server
/// nor the session has been closed.
pub fn keep_reading(server_cancelled: bool, session_disconnected: bool) -> (r: bool)
    ensures
        r == (!server_cancelled && !session_disconnected),
{
    !server_cancelled && !session_disconnected
}

/// The step after a wait: a frame is dispatched, anything else closes the
/// connection.
pub fn after_wait(event: HandlerEvent) -> (r: HandlerStep)
    ensures
        event is Frame ==> r is Dispatch && r->Dispatch_0 == event->Frame_0,
        !(event is Frame) ==> r is Close,
{
    match event {
        HandlerEvent::Frame(f) => HandlerStep::Dispatch(f),
        _ => HandlerStep::Close,
    }
}

/// Lets a peer in: refused with `ConnectionBanned` when bans are checked
/// and its address is banned, else given a session ID, which fails only
/// when every index is in use.
pub fn admit_connection(
    bans: &BanManager,
    ids: &mut IDManager,
    check_bans: bool,
    address: Key,
) -> (r: Result<SessionID, Error>)
    requires
        bans.wf(),
        old(ids).wf(),
    ensures
        final(ids).wf(),
        final(ids).prefix() == old(ids).prefix(),
        check_bans && bans.bans().contains_key(address@) ==> r is Err && r->Err_0 is ConnectionBanned
            && *final(ids) == *old(ids),
        !(check_bans && bans.bans().contains_key(address@)) ==> {
            &&& r is Err <==> old(ids).allocated().len() == index_space()
            &&& r is Err ==> r->Err_0 is SessionIDsExhausted && *final(ids) == *old(ids)
            &&& r is Ok ==> {
                let j = final(ids).cursor();
                &&& first_free_from(old(ids).allocated(), old(ids).cursor(), j)
                &&& final(ids).allocated() == old(ids).allocated().insert(j)
                &&& r->Ok_0@ == compose_id(old(ids).prefix(), j)
            }
        },
{
    if check_bans {
        match bans.check_banned(address) {
            Ok(()) => {},
            Err(e) => {
                return Err(e);
            },
        }
    }
    ids.allocate_session_id()
}

/// Cleans up after a connection: gives back its session ID, bans its
/// address when the session asked for it, and shuts the session down.
pub fn release_connection<S>(
    session: &mut Session<S>,
    ids: &mut IDManager,
    bans: &mut BanManager,
    now: u64,
)
    requires
        old(ids).wf(),
        old(bans).wf(),
    ensures
        final(ids).wf(),
        final(bans).wf(),
        final(ids).allocated() == old(ids).allocated().remove(
            (old(session).spec_session_id()@ % 0x100_0000) as nat,
        ),
        ({
            let k = KeyModel::Socket(old(session).spec_ip());
            if old(session).spec_needs_ban() && old(bans).is_enabled() && !whitelisted(k) {
                final(bans).bans() == after_ban(
                    old(bans).bans(),
                    k,
                    DEFAULT_BAN_SCORE,
                    sat_add(now, old(bans).default_length()),
                )
            } else {
                final(bans).bans() == old(bans).bans()
            }
        }),
        final(session).spec_status() == SessionState::Disconnected,
{
    ids.remove_session_id(session.get_session_id());
    if session.needs_ban() {
        bans.add_ban_at(Key::Socket(session.ip()), now);
    }
    session.shutdown();
}

} // verus!
