//! Registry of the clients connected to a zone server and where each stands
//! in the connect, authenticate, enter-zone sequence.
use std::collections::HashMap;

use vstd::prelude::*;

use crate::bytes::push_all;
use crate::session::PeerAddr;

verus! {

broadcast use vstd::std_specs::hash::group_hash_axioms;

/// How far a client has come.
#[derive(Debug, Clone, Copy, PartialEq, Eq, Structural)]
pub enum SessionState {
    Connected,
    Authenticated,
    InZone,
}

/// What the server knows of one client.
#[derive(Debug)]
pub struct ClientInfo {
    pub session_id: u32,
    pub state: SessionState,
    pub account_id: u32,
    pub account_name: String,
    pub entity_id: Option<u32>,
    pub addr: PeerAddr,
}

/// The connected clients, by session id, and the messages waiting to be
/// written to each.
pub struct SessionManager {
    next_session_id: u32,
    sessions: HashMap<u32, ClientInfo>,
    outbound: HashMap<u32, Vec<Vec<u8>>>,
}

/// The contents of an outbound queue.
pub open spec fn queue_view(q: Vec<Vec<u8>>) -> Seq<Seq<u8>> {
    q@.map_values(|p: Vec<u8>| p@)
}

impl SessionManager {
    /// The id the next session gets.
    pub closed spec fn next_id(&self) -> u32 {
        self.next_session_id
    }

    /// The clients, by session id.
    pub closed spec fn clients(&self) -> Map<u32, ClientInfo> {
        self.sessions@
    }

    /// The messages waiting for each session, oldest first.
    pub closed spec fn queues(&self) -> Map<u32, Seq<Seq<u8>>> {
        self.outbound@.map_values(|q: Vec<Vec<u8>>| queue_view(q))
    }

    /// Whether every client, and only a client, has a queue.
    pub open spec fn queues_match(&self) -> bool {
        self.queues().dom() == self.clients().dom()
    }

    /// No clients; the first session gets id 1.
    pub fn new() -> (m: Self)
        ensures
            m.next_id() == 1,
            m.clients() == Map::<u32, ClientInfo>::empty(),
            m.queues() == Map::<u32, Seq<Seq<u8>>>::empty(),
    {
        let m = SessionManager { next_session_id: 1, sessions: HashMap::new(), outbound: HashMap::new() };
        assert(m.queues() =~= Map::<u32, Seq<Seq<u8>>>::empty());
        m
    }

    /// Registers a newly connected client under the next session id.
    pub fn create_session(&mut self, addr: PeerAddr) -> (id: u32)
        requires
            old(self).next_id() < u32::MAX,
        ensures
            id == old(self).next_id(),
            final(self).next_id() == id + 1,
            final(self).clients() == old(self).clients().insert(
                id,
                ClientInfo {
                    session_id: id,
                    state: SessionState::Connected,
                    account_id: 0,
                    account_name: final(self).clients()[id].account_name,
                    entity_id: None,
                    addr,
                },
            ),
            final(self).clients()[id].account_name@ == Seq::<char>::empty(),
            final(self).queues() == old(self).queues().insert(id, Seq::empty()),
    {
        let id = self.next_session_id;
        self.next_session_id = self.next_session_id + 1;
        let empty: Vec<Vec<u8>> = Vec::new();
        assert(queue_view(empty) =~= Seq::<Seq<u8>>::empty());
        self.outbound.insert(id, empty);
        assert(self.queues() =~= old(self).queues().insert(id, Seq::empty()));
        self.sessions.insert(
            id,
            ClientInfo {
                session_id: id,
                state: SessionState::Connected,
                account_id: 0,
                account_name: String::new(),
                entity_id: None,
                addr,
            },
        );
        id
    }

    /// Marks a client authenticated as an account. Unknown ids are ignored.
    pub fn authenticate(&mut self, session_id: u32, account_id: u32, account_name: String)
        ensures
            final(self).next_id() == old(self).next_id(),
            final(self).queues() == old(self).queues(),
            old(self).clients().contains_key(session_id) ==> final(self).clients()
                == old(self).clients().insert(
                session_id,
                ClientInfo {
                    state: SessionState::Authenticated,
                    account_id,
                    account_name,
                    ..old(self).clients()[session_id]
                },
            ),
            !old(self).clients().contains_key(session_id) ==> final(self).clients()
                == old(self).clients(),
    {
        match self.sessions.remove(&session_id) {
            Some(info) => {
                let updated = ClientInfo {
                    state: SessionState::Authenticated,
                    account_id,
                    account_name,
                    ..info
                };
                self.sessions.insert(session_id, updated);
                assert(self.sessions@ =~= old(self).sessions@.insert(session_id, updated));
            },
            None => {
                assert(self.sessions@ =~= old(self).sessions@);
            },
        }
    }

    /// Marks a client as in the zone, controlling `entity_id`. Unknown ids
    /// are ignored.
    pub fn enter_zone(&mut self, session_id: u32, entity_id: u32)
        ensures
            final(self).next_id() == old(self).next_id(),
            final(self).queues() == old(self).queues(),
            old(self).clients().contains_key(session_id) ==> final(self).clients()
                == old(self).clients().insert(
                session_id,
                ClientInfo {
                    state: SessionState::InZone,
                    entity_id: Some(entity_id),
                    ..old(self).clients()[session_id]
                },
            ),
            !old(self).clients().contains_key(session_id) ==> final(self).clients()
                == old(self).clients(),
    {
        match self.sessions.remove(&session_id) {
            Some(info) => {
                let updated = ClientInfo {
                    state: SessionState::InZone,
                    entity_id: Some(entity_id),
                    ..info
                };
                self.sessions.insert(session_id, updated);
                assert(self.sessions@ =~= old(self).sessions@.insert(session_id, updated));
            },
            None => {
                assert(self.sessions@ =~= old(self).sessions@);
            },
        }
    }

    /// Forgets a client; returns whether it was registered.
    pub fn remove_session(&mut self, session_id: u32) -> (removed: bool)
        ensures
            removed == old(self).clients().contains_key(session_id),
            final(self).next_id() == old(self).next_id(),
            final(self).clients() == old(self).clients().remove(session_id),
            final(self).queues() == old(self).queues().remove(session_id),
    {
        let removed = match self.sessions.remove(&session_id) {
            Some(_) => true,
            None => false,
        };
        self.outbound.remove(&session_id);
        assert(self.queues() =~= old(self).queues().remove(session_id));
        removed
    }

    /// Queues a message for one session; a session without a queue is
    /// skipped.
    pub fn queue_packet(&mut self, session_id: u32, packet: Vec<u8>)
        ensures
            final(self).next_id() == old(self).next_id(),
            final(self).clients() == old(self).clients(),
            final(self).queues() == if old(self).queues().contains_key(session_id) {
                old(self).queues().insert(session_id, old(self).queues()[session_id].push(packet@))
            } else {
                old(self).queues()
            },
    {
        match self.outbound.remove(&session_id) {
            Some(q) => {
                let mut q = q;
                let ghost before = q;
                q.push(packet);
                assert(queue_view(q) =~= queue_view(before).push(q@.last()@));
                self.outbound.insert(session_id, q);
                assert(self.queues() =~= old(self).queues().insert(
                    session_id,
                    old(self).queues()[session_id].push(q@.last()@),
                ));
            },
            None => {
                assert(self.outbound@ =~= old(self).outbound@);
            },
        }
    }

    /// Queues a copy of a message for every session.
    pub fn broadcast(&mut self, packet: &[u8])
        ensures
            final(self).next_id() == old(self).next_id(),
            final(self).clients() == old(self).clients(),
            final(self).queues().dom() == old(self).queues().dom(),
            forall|k: u32|
                old(self).queues().contains_key(k) ==> #[trigger] final(self).queues()[k] == old(
                    self,
                ).queues()[k].push(packet@),
    {
        let mut ids: Vec<u32> = Vec::new();
        let keys = self.outbound.keys();
        let ghost all = vstd::std_specs::iter::IteratorSpec::remaining(&keys);
        for k in it: keys
            invariant
                it.seq() == all,
                ids@ == all.take(it.index() as int).unref(),
        {
            ids.push(*k);
            assert(ids@ =~= all.take(it.index() + 1).unref());
        }
        assert(ids@ =~= all.unref());
        let ghost start = self.queues();
        let mut i: usize = 0;
        while i < ids.len()
            invariant
                i <= ids@.len(),
                ids@.to_set() == start.dom(),
                ids@.no_duplicates(),
                self.next_id() == old(self).next_id(),
                self.clients() == old(self).clients(),
                start == old(self).queues(),
                self.queues().dom() == start.dom(),
                forall|k: u32|
                    #![trigger self.queues()[k]]
                    start.contains_key(k) ==> self.queues()[k] == if ids@.take(i as int).contains(k) {
                        start[k].push(packet@)
                    } else {
                        start[k]
                    },
            decreases ids@.len() - i,
        {
            let id = ids[i];
            assert(ids@.to_set().contains(id));
            assert(!ids@.take(i as int).contains(id)) by {
                if ids@.take(i as int).contains(id) {
                    let j = choose|j: int| 0 <= j < i && ids@[j] == id;
                    assert(ids@[j] == ids@[i as int]);
                }
            }
            let ghost mid = self.queues();
            match self.outbound.remove(&id) {
                Some(q) => {
                    let mut q = q;
                    let ghost before = q;
                    let mut copy: Vec<u8> = Vec::new();
                    push_all(&mut copy, packet);
                    q.push(copy);
                    assert(queue_view(q) =~= queue_view(before).push(packet@));
                    self.outbound.insert(id, q);
                    assert(self.queues() =~= mid.insert(id, mid[id].push(packet@)));
                },
                None => {
                    assert(false);
                },
            }
            assert(ids@.take(i + 1) =~= ids@.take(i as int).push(id));
            assert forall|k: u32| #![trigger self.queues()[k]] start.contains_key(k) implies self.queues()[k] == if ids@.take(
                i + 1,
            ).contains(k) {
                start[k].push(packet@)
            } else {
                start[k]
            } by {
                if k != id {
                    assert(ids@.take(i + 1).contains(k) == ids@.take(i as int).contains(k));
                } else {
                    assert(ids@.take(i + 1)[i as int] == id);
                }
            }
            i = i + 1;
        }
        assert(ids@.take(i as int) =~= ids@);
        assert forall|k: u32| start.contains_key(k) implies ids@.contains(k) by {
            assert(ids@.to_set().contains(k));
        }
    }

    /// Takes the messages waiting for a session, oldest first, leaving its
    /// queue empty.
    pub fn take_outbound(&mut self, session_id: u32) -> (msgs: Vec<Vec<u8>>)
        ensures
            final(self).next_id() == old(self).next_id(),
            final(self).clients() == old(self).clients(),
            old(self).queues().contains_key(session_id) ==> queue_view(msgs) == old(self).queues()[session_id]
                && final(self).queues() == old(self).queues().insert(session_id, Seq::empty()),
            !old(self).queues().contains_key(session_id) ==> msgs@.len() == 0 && final(self).queues()
                == old(self).queues(),
    {
        match self.outbound.remove(&session_id) {
            Some(q) => {
                let empty: Vec<Vec<u8>> = Vec::new();
                assert(queue_view(empty) =~= Seq::<Seq<u8>>::empty());
                self.outbound.insert(session_id, empty);
                assert(self.queues() =~= old(self).queues().insert(session_id, Seq::empty()));
                q
            },
            None => {
                assert(self.outbound@ =~= old(self).outbound@);
                Vec::new()
            },
        }
    }

    /// The client registered under `session_id`.
    pub fn get(&self, session_id: u32) -> (info: Option<&ClientInfo>)
        ensures
            match info {
                Some(i) => self.clients().contains_key(session_id) && *i == self.clients()[session_id],
                None => !self.clients().contains_key(session_id),
            },
    {
        self.sessions.get(&session_id)
    }

    /// Number of registered clients.
    pub fn session_count(&self) -> (n: usize)
        ensures
            n == self.clients().len(),
    {
        self.sessions.len()
    }

    /// The registered session ids, each once, in no particular order.
    pub fn all_session_ids(&self) -> (ids: Vec<u32>)
        ensures
            ids@.to_set() == self.clients().dom(),
            ids@.no_duplicates(),
    {
        let mut ids: Vec<u32> = Vec::new();
        let keys = self.sessions.keys();
        let ghost all = vstd::std_specs::iter::IteratorSpec::remaining(&keys);
        for k in it: keys
            invariant
                it.seq() == all,
                ids@ == all.take(it.index() as int).unref(),
        {
            ids.push(*k);
            assert(ids@ =~= all.take(it.index() + 1).unref());
        }
        assert(ids@ =~= all.unref());
        ids
    }
}

/// A message a client sends the zone server, as far as the server's
/// answer depends on it.
#[derive(Debug)]
pub enum ClientMessage {
    SessionRequest,
    AuthRequest { account_name: String },
    ZoneEntryRequest,
    PositionUpdate { entity_id: u32 },
    Heartbeat,
    Disconnect,
    /// Any other message.
    Other,
    /// A message without a payload.
    Empty,
}

/// What the server does in answer to a client message.
#[derive(Debug, Clone, Copy, PartialEq, Eq)]
pub enum SessionAction {
    /// Send the accepted session response, numbered `sequence`.
    AcceptSession { sequence: u32, session_id: u32 },
    /// Send the successful authentication response, numbered `sequence`.
    AcceptAuth { sequence: u32, account_id: u32 },
    /// Send the zone's spawns, then the zone-ready message.
    SendZone,
    /// Check and apply the position the client reports for `entity_id`.
    MoveEntity { entity_id: u32 },
    /// End the connection.
    Close,
    /// Nothing to answer.
    Ignore,
}

/// The account every authentication is granted.
pub const GRANTED_ACCOUNT_ID: u32 = 1;

/// How far a session has come, as the server sees it: connected when the
/// session is unknown.
pub open spec fn session_state(clients: Map<u32, ClientInfo>, session_id: u32) -> SessionState {
    if clients.contains_key(session_id) {
        clients[session_id].state
    } else {
        SessionState::Connected
    }
}

/// The answer to a client message, given the session's state and the last
/// sequence number used: session and authentication requests are always
/// accepted (each numbered one higher); a zone-entry request only from an
/// authenticated session, a position report only from a session in the
/// zone; a disconnect ends the connection; anything else is ignored.
pub open spec fn message_action(state: SessionState, session_id: u32, seq: u32, msg: ClientMessage) -> (
    u32,
    SessionAction,
) {
    match msg {
        ClientMessage::SessionRequest => (
            (seq + 1) as u32,
            SessionAction::AcceptSession { sequence: (seq + 1) as u32, session_id },
        ),
        ClientMessage::AuthRequest { .. } => (
            (seq + 1) as u32,
            SessionAction::AcceptAuth { sequence: (seq + 1) as u32, account_id: GRANTED_ACCOUNT_ID },
        ),
        ClientMessage::ZoneEntryRequest => if state == SessionState::Authenticated {
            (seq, SessionAction::SendZone)
        } else {
            (seq, SessionAction::Ignore)
        },
        ClientMessage::PositionUpdate { entity_id } => if state == SessionState::InZone {
            (seq, SessionAction::MoveEntity { entity_id })
        } else {
            (seq, SessionAction::Ignore)
        },
        ClientMessage::Disconnect => (seq, SessionAction::Close),
        _ => (seq, SessionAction::Ignore),
    }
}

/// The state of a known session after a message.
pub open spec fn next_state(state: SessionState, msg: ClientMessage) -> SessionState {
    match msg {
        ClientMessage::AuthRequest { .. } => SessionState::Authenticated,
        ClientMessage::ZoneEntryRequest => if state == SessionState::Authenticated {
            SessionState::InZone
        } else {
            state
        },
        _ => state,
    }
}

/// The state of a known session after a series of messages.
pub open spec fn state_after(state: SessionState, msgs: Seq<ClientMessage>) -> SessionState
    decreases msgs.len(),
{
    if msgs.len() == 0 {
        state
    } else {
        next_state(state_after(state, msgs.drop_last()), msgs.last())
    }
}

impl SessionManager {
    /// Handles a message from session `session_id`, whose last sequence
    /// number is `seq`: returns the new last sequence number and what to do.
    /// An authentication request authenticates the session as the granted
    /// account under the requested name; an accepted zone-entry request
    /// puts it in the zone (entity 0).
    pub fn handle_client_message(&mut self, session_id: u32, seq: u32, msg: ClientMessage) -> (r: (u32, SessionAction))
        requires
            (msg is SessionRequest || msg is AuthRequest) ==> seq < u32::MAX,
        ensures
            r == message_action(session_state(old(self).clients(), session_id), session_id, seq, msg),
            old(self).clients().contains_key(session_id) ==> session_state(final(self).clients(), session_id)
                == next_state(session_state(old(self).clients(), session_id), msg),
            final(self).next_id() == old(self).next_id(),
            final(self).queues() == old(self).queues(),
            final(self).clients() == match msg {
                ClientMessage::AuthRequest { account_name } => if old(self).clients().contains_key(session_id) {
                    old(self).clients().insert(
                        session_id,
                        ClientInfo {
                            state: SessionState::Authenticated,
                            account_id: GRANTED_ACCOUNT_ID,
                            account_name,
                            ..old(self).clients()[session_id]
                        },
                    )
                } else {
                    old(self).clients()
                },
                ClientMessage::ZoneEntryRequest => if session_state(old(self).clients(), session_id)
                    == SessionState::Authenticated {
                    old(self).clients().insert(
                        session_id,
                        ClientInfo {
                            state: SessionState::InZone,
                            entity_id: Some(0),
                            ..old(self).clients()[session_id]
                        },
                    )
                } else {
                    old(self).clients()
                },
                _ => old(self).clients(),
            },
    {
        let state = match self.get(session_id) {
            Some(info) => info.state,
            None => SessionState::Connected,
        };
        match msg {
            ClientMessage::SessionRequest => (
                seq + 1,
                SessionAction::AcceptSession { sequence: seq + 1, session_id },
            ),
            ClientMessage::AuthRequest { account_name } => {
                self.authenticate(session_id, GRANTED_ACCOUNT_ID, account_name);
                (seq + 1, SessionAction::AcceptAuth { sequence: seq + 1, account_id: GRANTED_ACCOUNT_ID })
            },
            ClientMessage::ZoneEntryRequest => {
                if state == SessionState::Authenticated {
                    self.enter_zone(session_id, 0);
                    (seq, SessionAction::SendZone)
                } else {
                    (seq, SessionAction::Ignore)
                }
            },
            ClientMessage::PositionUpdate { entity_id } => {
                if state == SessionState::InZone {
                    (seq, SessionAction::MoveEntity { entity_id })
                } else {
                    (seq, SessionAction::Ignore)
                }
            },
            ClientMessage::Disconnect => (seq, SessionAction::Close),
            _ => (seq, SessionAction::Ignore),
        }
    }
}

/// The sequence numbers of a zone entry sent after sequence number `seq`:
/// one for each of `spawn_count` spawns, in order, then one for the
/// zone-ready message, which is the new last sequence number.
pub fn zone_entry_sequences(seq: u32, spawn_count: u32) -> (r: (Vec<u32>, u32))
    requires
        seq + spawn_count + 1 <= u32::MAX,
    ensures
        r.0@.len() == spawn_count,
        forall|i: int| 0 <= i < spawn_count ==> #[trigger] r.0@[i] == seq + 1 + i,
        r.1 == seq + spawn_count + 1,
{
    let mut out: Vec<u32> = Vec::new();
    let mut i: u32 = 0;
    while i < spawn_count
        invariant
            i <= spawn_count,
            seq + spawn_count + 1 <= u32::MAX,
            out@.len() == i,
            forall|j: int| 0 <= j < i ==> #[trigger] out@[j] == seq + 1 + j,
        decreases spawn_count - i,
    {
        out.push(seq + 1 + i);
        i = i + 1;
    }
    (out, seq + spawn_count + 1)
}

/// Law: a zone-entry request from a session that is not authenticated, and
/// a position report from a session that is not in the zone, are ignored:
/// no sequence number is used and the session's state stays as it was. A
/// session enters the zone only from the authenticated state, by a
/// zone-entry request.
pub proof fn law_session_access_control(state: SessionState, session_id: u32, seq: u32, msg: ClientMessage)
    ensures
        msg is ZoneEntryRequest && state != SessionState::Authenticated ==> message_action(
            state,
            session_id,
            seq,
            msg,
        ) == (seq, SessionAction::Ignore) && next_state(state, msg) == state,
        msg is PositionUpdate && state != SessionState::InZone ==> message_action(state, session_id, seq, msg)
            == (seq, SessionAction::Ignore) && next_state(state, msg) == state,
        next_state(state, msg) == SessionState::InZone && state != SessionState::InZone ==> state
            == SessionState::Authenticated && msg is ZoneEntryRequest,
{
}

/// Law: a newly connected session reaches the zone only through an
/// authentication request followed, later, by a zone-entry request.
pub proof fn law_zone_entry_needs_auth(msgs: Seq<ClientMessage>)
    ensures
        state_after(SessionState::Connected, msgs) == SessionState::InZone ==> exists|i: int, j: int|
            0 <= i < j < msgs.len() && #[trigger] msgs[i] is AuthRequest && #[trigger] msgs[j] is ZoneEntryRequest,
        state_after(SessionState::Connected, msgs) == SessionState::Authenticated ==> exists|i: int|
            0 <= i < msgs.len() && #[trigger] msgs[i] is AuthRequest,
    decreases msgs.len(),
{
    if msgs.len() > 0 {
        let d = msgs.drop_last();
        law_zone_entry_needs_auth(d);
        let n = msgs.len() - 1;
        assert forall|k: int| 0 <= k < d.len() implies d[k] == msgs[k] by {}
        let before = state_after(SessionState::Connected, d);
        if state_after(SessionState::Connected, msgs) == SessionState::InZone {
            if before == SessionState::InZone {
                let (i, j) = choose|i: int, j: int|
                    0 <= i < j < d.len() && #[trigger] d[i] is AuthRequest && #[trigger] d[j] is ZoneEntryRequest;
                assert(msgs[i] == d[i] && msgs[j] == d[j]);
            } else {
                assert(msgs.last() is ZoneEntryRequest && before == SessionState::Authenticated);
                let i = choose|i: int| 0 <= i < d.len() && #[trigger] d[i] is AuthRequest;
                assert(msgs[i] == d[i]);
                assert(msgs[n] == msgs.last());
            }
        }
        if state_after(SessionState::Connected, msgs) == SessionState::Authenticated {
            if msgs.last() is AuthRequest {
                assert(msgs[n] == msgs.last());
            } else {
                let i = choose|i: int| 0 <= i < d.len() && #[trigger] d[i] is AuthRequest;
                assert(msgs[i] == d[i]);
            }
        }
    }
}

} // verus!
