//! The per-request logic around the shared state: authentication outcomes,
//! the error taxonomy, and one function per request kind.  Each handler is a
//! step from state and plain inputs to the next state and a response; the
//! surrounding program supplies transport, the authenticator's verdict and
//! the clock.

use vstd::prelude::*;
use crate::event::{
    chat_model, disconnect_text, join_model, make_chat, make_disconnect_text, make_join,
    make_room_created_text, make_system, room_created_text, system_model, Event, EventModel,
};
use crate::hub::{Hub, RecvOutcome, Subscriber, CAPACITY};
use crate::presence::{active_after, expired_at, names_of, PresenceData, PresenceRegistry};
use crate::rooms::RoomRegistry;

verus! {

/// A message longer than this many characters is rejected, not truncated.
pub const MAX_MESSAGE_LENGTH: usize = 500;

/// Seconds without activity after which the sweep evicts an identity.
pub const INACTIVE_THRESHOLD: i64 = 30;

/// Seconds between two runs of the inactivity sweep.
pub const SWEEP_PERIOD: i64 = 30;

/// How a single request fails.  Every failure is terminal for that one
/// exchange and reported directly to the caller.
#[derive(Clone, Copy, Debug, PartialEq, Eq, Structural)]
pub enum ServiceError {
    /// Missing, invalid or expired credential.
    Unauthorized,
    /// Malformed input, e.g. an oversized message.
    BadRequest,
    /// A heartbeat for an identity with no entry.
    NotFound,
    /// A duplicate room name.
    Conflict,
    /// An unexpected collaborator failure.
    Internal,
}

/// The external authenticator's verdict on a request's credential.
#[derive(Debug)]
pub enum AuthOutcome {
    /// The credential named this identity.
    Authenticated(String),
    /// The credential was missing, invalid or expired.
    Rejected,
    /// The authenticator itself failed unexpectedly.
    Failed,
}

/// The process-wide shared state: the broadcast hub, the presence registry
/// and the room registry, mutated only under the caller's mutual exclusion.
pub struct HubState {
    pub hub: Hub,
    pub presence: PresenceRegistry,
    pub rooms: RoomRegistry,
}

/// `b` keeps `a`'s hub history, closed flag, presence map and room set.
pub open spec fn state_unchanged(a: HubState, b: HubState) -> bool {
    &&& b.hub@ == a.hub@
    &&& b.hub.is_closed() == a.hub.is_closed()
    &&& b.presence@ == a.presence@
    &&& b.rooms@ == a.rooms@
}

/// The synthetic leave events published for a sweep's evictions, in order.
pub open spec fn leave_events(ids: Seq<Seq<char>>, now: int) -> Seq<EventModel> {
    Seq::new(ids.len(), |i: int| system_model(disconnect_text(ids[i], "inactivity"@), now))
}

impl HubState {
    /// All three components are well formed.
    pub open spec fn inv(&self) -> bool {
        &&& self.hub.inv()
        &&& self.presence.inv()
        &&& self.rooms.inv()
    }

    /// Fresh state: no events, no presence entries, no rooms.
    pub fn new() -> (s: HubState)
        ensures
            s.inv(),
            s.hub@ == Seq::<EventModel>::empty(),
            !s.hub.is_closed(),
            s.presence@ == Map::<Seq<char>, PresenceData>::empty(),
            s.rooms@ == Set::<Seq<char>>::empty(),
    {
        HubState { hub: Hub::new(), presence: PresenceRegistry::new(), rooms: RoomRegistry::new() }
    }
}

/// Publishes a system event carrying `text`, stamped with `now`.
pub fn broadcast_system_message(state: &mut HubState, text: String, now: i64)
    requires
        old(state).inv(),
        old(state).hub@.len() < u64::MAX,
    ensures
        final(state).inv(),
        final(state).hub@ == old(state).hub@.push(system_model(text@, now as int)),
        final(state).hub.is_closed() == old(state).hub.is_closed(),
        final(state).presence@ == old(state).presence@,
        final(state).rooms@ == old(state).rooms@,
{
    let ev = make_system(text, now);
    state.hub.publish(ev);
}

/// Handles a chat post for an authenticated identity: rejects oversized
/// text, records activity, publishes a synthetic join for a first-seen
/// identity, then publishes the chat event stamped `Chat`.
pub fn post_message(
    state: &mut HubState,
    auth: AuthOutcome,
    room: String,
    text: String,
    now: i64,
) -> (r: Result<(), ServiceError>)
    requires
        old(state).inv(),
        old(state).hub@.len() + 2 <= u64::MAX,
    ensures
        final(state).inv(),
        final(state).hub.is_closed() == old(state).hub.is_closed(),
        final(state).rooms@ == old(state).rooms@,
        match auth {
            AuthOutcome::Authenticated(id) => {
                if text@.len() > MAX_MESSAGE_LENGTH {
                    &&& r == Err::<(), ServiceError>(ServiceError::BadRequest)
                    &&& state_unchanged(*old(state), *final(state))
                } else {
                    &&& r == Ok::<(), ServiceError>(())
                    &&& final(state).presence@ == old(state).presence@.insert(
                        id@,
                        (PresenceData { last_seen: now as int, room: room@ }),
                    )
                    &&& if old(state).presence@.dom().contains(id@) {
                        final(state).hub@ == old(state).hub@.push(
                            chat_model(room@, text@, now as int, id@),
                        )
                    } else {
                        final(state).hub@ == old(state).hub@.push(
                            join_model(room@, now as int, id@),
                        ).push(chat_model(room@, text@, now as int, id@))
                    }
                }
            },
            AuthOutcome::Rejected => {
                &&& r == Err::<(), ServiceError>(ServiceError::Unauthorized)
                &&& state_unchanged(*old(state), *final(state))
            },
            AuthOutcome::Failed => {
                &&& r == Err::<(), ServiceError>(ServiceError::Internal)
                &&& state_unchanged(*old(state), *final(state))
            },
        },
{
    match auth {
        AuthOutcome::Rejected => Err(ServiceError::Unauthorized),
        AuthOutcome::Failed => Err(ServiceError::Internal),
        AuthOutcome::Authenticated(identity) => {
            if text.as_str().unicode_len() > MAX_MESSAGE_LENGTH {
                return Err(ServiceError::BadRequest);
            }
            let is_new = state.presence.touch(&identity, room.clone(), now);
            if is_new {
                let join = make_join(room.clone(), now, identity.clone());
                state.hub.publish(join);
            }
            let chat = make_chat(room, text, now, identity);
            state.hub.publish(chat);
            Ok(())
        },
    }
}

/// Handles a heartbeat: records activity for an identity that already has an
/// entry, and never creates one.
pub fn heartbeat(state: &mut HubState, auth: AuthOutcome, room: String, now: i64) -> (r: Result<
    (),
    ServiceError,
>)
    requires
        old(state).inv(),
    ensures
        final(state).inv(),
        final(state).hub@ == old(state).hub@,
        final(state).hub.is_closed() == old(state).hub.is_closed(),
        final(state).rooms@ == old(state).rooms@,
        match auth {
            AuthOutcome::Authenticated(id) => {
                if old(state).presence@.dom().contains(id@) {
                    &&& r == Ok::<(), ServiceError>(())
                    &&& final(state).presence@ == old(state).presence@.insert(
                        id@,
                        (PresenceData { last_seen: now as int, room: room@ }),
                    )
                } else {
                    &&& r == Err::<(), ServiceError>(ServiceError::NotFound)
                    &&& final(state).presence@ == old(state).presence@
                }
            },
            AuthOutcome::Rejected => {
                &&& r == Err::<(), ServiceError>(ServiceError::Unauthorized)
                &&& final(state).presence@ == old(state).presence@
            },
            AuthOutcome::Failed => {
                &&& r == Err::<(), ServiceError>(ServiceError::Internal)
                &&& final(state).presence@ == old(state).presence@
            },
        },
{
    match auth {
        AuthOutcome::Rejected => Err(ServiceError::Unauthorized),
        AuthOutcome::Failed => Err(ServiceError::Internal),
        AuthOutcome::Authenticated(identity) => {
            if state.presence.contains(&identity) {
                let _ = state.presence.touch(&identity, room, now);
                Ok(())
            } else {
                Err(ServiceError::NotFound)
            }
        },
    }
}

/// Handles room creation: adds an absent name and announces it with a system
/// event; reports a present name as a conflict and changes nothing.
pub fn create_room(state: &mut HubState, auth: AuthOutcome, name: String, now: i64) -> (r: Result<
    (),
    ServiceError,
>)
    requires
        old(state).inv(),
        old(state).hub@.len() < u64::MAX,
    ensures
        final(state).inv(),
        final(state).hub.is_closed() == old(state).hub.is_closed(),
        final(state).presence@ == old(state).presence@,
        match auth {
            AuthOutcome::Authenticated(_) => {
                if old(state).rooms@.contains(name@) {
                    &&& r == Err::<(), ServiceError>(ServiceError::Conflict)
                    &&& state_unchanged(*old(state), *final(state))
                } else {
                    &&& r == Ok::<(), ServiceError>(())
                    &&& final(state).rooms@ == old(state).rooms@.insert(name@)
                    &&& final(state).hub@ == old(state).hub@.push(
                        system_model(room_created_text(name@), now as int),
                    )
                }
            },
            AuthOutcome::Rejected => {
                &&& r == Err::<(), ServiceError>(ServiceError::Unauthorized)
                &&& state_unchanged(*old(state), *final(state))
            },
            AuthOutcome::Failed => {
                &&& r == Err::<(), ServiceError>(ServiceError::Internal)
                &&& state_unchanged(*old(state), *final(state))
            },
        },
{
    match auth {
        AuthOutcome::Rejected => Err(ServiceError::Unauthorized),
        AuthOutcome::Failed => Err(ServiceError::Internal),
        AuthOutcome::Authenticated(_identity) => {
            if !state.rooms.create(&name) {
                proof {
                    assert(state.rooms@ =~= old(state).rooms@);
                }
                return Err(ServiceError::Conflict);
            }
            let text = make_room_created_text(&name);
            broadcast_system_message(state, text, now);
            Ok(())
        },
    }
}

/// Handles a room listing: a snapshot holding each known room name exactly
/// once.
pub fn list_rooms(state: &HubState, auth: AuthOutcome) -> (r: Result<Vec<String>, ServiceError>)
    requires
        state.inv(),
    ensures
        match auth {
            AuthOutcome::Authenticated(_) => match r {
                Ok(list) => {
                    &&& forall|n: Seq<char>|
                        #[trigger] names_of(list@).contains(n) <==> state.rooms@.contains(n)
                    &&& forall|i: int, j: int| 0 <= i < j < list@.len() ==> list@[i]@ != list@[j]@
                },
                Err(_) => false,
            },
            AuthOutcome::Rejected => r == Err::<Vec<String>, ServiceError>(
                ServiceError::Unauthorized,
            ),
            AuthOutcome::Failed => r == Err::<Vec<String>, ServiceError>(ServiceError::Internal),
        },
{
    match auth {
        AuthOutcome::Rejected => Err(ServiceError::Unauthorized),
        AuthOutcome::Failed => Err(ServiceError::Internal),
        AuthOutcome::Authenticated(_identity) => Ok(state.rooms.list()),
    }
}

/// Opens an event stream: a fresh subscriber positioned at "now", which will
/// only ever see events published after this call.
pub fn open_event_stream(state: &HubState, auth: AuthOutcome) -> (r: Result<
    Subscriber,
    ServiceError,
>)
    requires
        state.inv(),
    ensures
        match auth {
            AuthOutcome::Authenticated(_) => match r {
                Ok(sub) => {
                    &&& sub.wf()
                    &&& sub.in_sync(&state.hub)
                    &&& sub@.cursor == state.hub@.len()
                    &&& sub@.born == state.hub@.len()
                    &&& sub@.delivered == Seq::<int>::empty()
                },
                Err(_) => false,
            },
            AuthOutcome::Rejected => r == Err::<Subscriber, ServiceError>(
                ServiceError::Unauthorized,
            ),
            AuthOutcome::Failed => r == Err::<Subscriber, ServiceError>(ServiceError::Internal),
        },
{
    match auth {
        AuthOutcome::Rejected => Err(ServiceError::Unauthorized),
        AuthOutcome::Failed => Err(ServiceError::Internal),
        AuthOutcome::Authenticated(_identity) => Ok(state.hub.subscribe()),
    }
}

/// One sweep tick: removes every identity inactive beyond `threshold` at
/// `now` and publishes one leave-announcing system event per eviction, in
/// eviction order.  Deciding and removing happen in one step under the
/// caller's lock, so a concurrent activity record is never clobbered by a
/// stale eviction choice.
pub fn sweep_inactive(state: &mut HubState, now: i64, threshold: i64) -> (evicted: Vec<String>)
    requires
        old(state).inv(),
        old(state).hub@.len() + old(state).presence@.dom().len() < u64::MAX,
    ensures
        final(state).inv(),
        final(state).hub.is_closed() == old(state).hub.is_closed(),
        final(state).rooms@ == old(state).rooms@,
        final(state).presence@ == active_after(old(state).presence@, now as int, threshold as int),
        forall|id: Seq<char>|
            #[trigger] names_of(evicted@).contains(id) <==> (old(state).presence@.dom().contains(id)
                && expired_at(old(state).presence@[id], now as int, threshold as int)),
        forall|i: int, j: int| 0 <= i < j < evicted@.len() ==> evicted@[i]@ != evicted@[j]@,
        final(state).hub@ == old(state).hub@ + leave_events(names_of(evicted@), now as int),
    {
    let evicted = state.presence.sweep_inactive(now, threshold);
    let ghost hub0 = state.hub@;
    let ghost ids = names_of(evicted@);
    let n = evicted.len();
    let mut i: usize = 0;
    while i < n
        invariant
            state.hub.inv(),
            state.presence.inv(),
            state.rooms.inv(),
            state.presence@ == active_after(old(state).presence@, now as int, threshold as int),
            state.rooms@ == old(state).rooms@,
            state.hub.is_closed() == old(state).hub.is_closed(),
            n == evicted@.len(),
            i <= n,
            ids == names_of(evicted@),
            hub0.len() + n < u64::MAX,
            state.hub@ == hub0 + leave_events(ids.take(i as int), now as int),
        decreases n - i,
    {
        let text = make_disconnect_text(&evicted[i], "inactivity");
        let ev = make_system(text, now);
        state.hub.publish(ev);
        proof {
            assert(state.hub@ =~= hub0 + leave_events(ids.take(i as int + 1), now as int));
        }
        i = i + 1;
    }
    proof {
        assert(ids.take(n as int) =~= ids);
        assert(hub0 + leave_events(ids.take(0), now as int) =~= hub0);
    }
    evicted
}

/// Explicitly removes an identity (a disconnect) and, if it had an entry,
/// publishes a system event naming it and the reason.
pub fn remove_user(state: &mut HubState, identity: &String, reason: &str, now: i64) -> (existed:
    bool)
    requires
        old(state).inv(),
        old(state).hub@.len() < u64::MAX,
    ensures
        final(state).inv(),
        final(state).hub.is_closed() == old(state).hub.is_closed(),
        final(state).rooms@ == old(state).rooms@,
        existed == old(state).presence@.dom().contains(identity@),
        final(state).presence@ == old(state).presence@.remove(identity@),
        final(state).hub@ == if existed {
            old(state).hub@.push(system_model(disconnect_text(identity@, reason@), now as int))
        } else {
            old(state).hub@
        },
{
    let existed = state.presence.remove(identity);
    if existed {
        let text = make_disconnect_text(identity, reason);
        broadcast_system_message(state, text, now);
    }
    existed
}

/// What a stream session does with one receive outcome.
#[derive(Debug)]
pub enum SessionAction {
    /// Serialize this event and push it to the client.
    Push(Event),
    /// Nothing to deliver yet: suspend, then ask again.
    Wait,
    /// Close the session and its transport, delivering no error event: the
    /// client observes only connection closure.
    Terminate,
}

/// One step of a stream session: drains the subscriber once and says what
/// the session must do.  A lagged or closed subscriber terminates the
/// session — skipping silently is unsupported, since nothing says which
/// events were lost.
pub fn session_step(sub: &mut Subscriber, hub: &Hub) -> (a: SessionAction)
    requires
        hub.inv(),
        old(sub).wf(),
        old(sub).in_sync(hub),
    ensures
        final(sub).wf(),
        final(sub).in_sync(hub),
        final(sub)@.born == old(sub)@.born,
        match a {
            SessionAction::Push(e) => {
                &&& old(sub)@.cursor < hub@.len()
                &&& hub@.len() - old(sub)@.cursor <= CAPACITY
                &&& e@ == hub@[old(sub)@.cursor]
                &&& final(sub)@.cursor == old(sub)@.cursor + 1
                &&& final(sub)@.delivered == old(sub)@.delivered.push(old(sub)@.cursor)
            },
            SessionAction::Wait => {
                &&& old(sub)@.cursor == hub@.len()
                &&& !hub.is_closed()
                &&& final(sub)@ == old(sub)@
            },
            SessionAction::Terminate => {
                &&& (hub@.len() - old(sub)@.cursor > CAPACITY) || (old(sub)@.cursor == hub@.len()
                    && hub.is_closed())
                &&& final(sub)@ == old(sub)@
            },
        },
{
    match sub.recv(hub) {
        RecvOutcome::Ready(e) => SessionAction::Push(e),
        RecvOutcome::Empty => SessionAction::Wait,
        RecvOutcome::Lagged => SessionAction::Terminate,
        RecvOutcome::Closed => SessionAction::Terminate,
    }
}

} // verus!
