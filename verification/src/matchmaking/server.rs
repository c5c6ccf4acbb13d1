//! The rendezvous server's bookkeeping.
//!
//! The server pairs the first two clients that name the same session.  The
//! second gets the first one's offer at once; answers go to the first
//! client, candidates to the other one.  The caller owns the streams: it
//! hands each incoming message to [`Server::handle_message`] and delivers
//! what comes back.

use crate::matchmaking::protocol::{deserialized, Answer, ICECandidate, Offer, Packet, PacketView};
use crate::wire::same_bytes;
use vstd::prelude::*;

verus! {

/// Most clients that a session pairs.
pub const SESSION_SIZE: usize = 2;

/// What a client did wrong.  The server drops that client's connection and
/// keeps the session.
#[derive(Clone, Copy, Debug, PartialEq, Eq, Structural)]
pub enum Violation {
    /// The bytes are no message.
    Malformed,
    /// Only the server sends offers.
    OfferFromClient,
    /// The client has not joined a session, or the session is gone.
    NoSession,
    /// The client has joined a session before.
    AlreadyStarted,
    /// The session has its two clients already.
    SessionFull,
    /// The client that should get the message has not joined.
    PeerMissing,
}

/// A message for the caller to deliver.
#[derive(Debug)]
pub struct Delivery {
    /// The connection to write to.
    pub to: u64,
    pub packet: Packet,
}

/// A `Delivery` as a mathematical value.
pub struct DeliveryView {
    pub to: u64,
    pub packet: PacketView,
}

impl View for Delivery {
    type V = DeliveryView;

    open spec fn view(&self) -> DeliveryView {
        DeliveryView { to: self.to, packet: self.packet@ }
    }
}

/// What the server answers to one message, as a mathematical value.
pub open spec fn reply_view(r: Result<Option<Delivery>, Violation>) -> Result<
    Option<DeliveryView>,
    Violation,
> {
    match r {
        Ok(Some(d)) => Ok(Some(d@)),
        Ok(None) => Ok(None),
        Err(v) => Err(v),
    }
}

/// Mathematical state of one session.
pub struct SessionState {
    /// Clients that joined and have not left.
    pub num_clients: nat,
    /// The first client's offer.
    pub offer_sdp: Seq<u8>,
    /// The connections that joined, in order.
    pub sinks: Seq<u64>,
}

/// Mathematical state of the server: the sessions by their id.
pub type Sessions = Map<Seq<u8>, SessionState>;

/// Mathematical state of one connection.
pub struct ClientState {
    pub id: u64,
    /// The session that the client joined.
    pub session: Option<Seq<u8>>,
    /// The client's place among the session's connections.
    pub me: nat,
}

/// The sessions and the client after a `Start`, and the server's answer.
pub open spec fn on_start(
    sessions: Sessions,
    client: ClientState,
    session_id: Seq<u8>,
    offer_sdp: Seq<u8>,
) -> (Sessions, ClientState, Result<Option<DeliveryView>, Violation>) {
    if client.session.is_some() {
        (sessions, client, Err(Violation::AlreadyStarted))
    } else if !sessions.dom().contains(session_id) {
        (
            sessions.insert(
                session_id,
                SessionState { num_clients: 1, offer_sdp, sinks: seq![client.id] },
            ),
            ClientState { session: Some(session_id), me: 0, ..client },
            Ok(None),
        )
    } else {
        let s = sessions[session_id];
        if s.sinks.len() >= SESSION_SIZE {
            (sessions, client, Err(Violation::SessionFull))
        } else {
            (
                sessions.insert(
                    session_id,
                    SessionState {
                        num_clients: s.num_clients + 1,
                        sinks: s.sinks.push(client.id),
                        ..s
                    },
                ),
                ClientState { session: Some(session_id), me: s.sinks.len(), ..client },
                if s.sinks.len() == 1 {
                    Ok(
                        Some(
                            DeliveryView {
                                to: client.id,
                                packet: PacketView::Offer { sdp: s.offer_sdp },
                            },
                        ),
                    )
                } else {
                    Ok(None)
                },
            )
        }
    }
}

/// The connection that a message of `client` is forwarded to: place `slot`
/// of the client's session.
pub open spec fn forward_to(sessions: Sessions, client: ClientState, slot: int) -> Result<
    u64,
    Violation,
> {
    match client.session {
        None => Err(Violation::NoSession),
        Some(id) => if !sessions.dom().contains(id) {
            Err(Violation::NoSession)
        } else if 0 <= slot < sessions[id].sinks.len() {
            Ok(sessions[id].sinks[slot])
        } else {
            Err(Violation::PeerMissing)
        },
    }
}

/// The server's answer to a message that is passed on as it is.
pub open spec fn forwarded(to: Result<u64, Violation>, packet: PacketView) -> Result<
    Option<DeliveryView>,
    Violation,
> {
    match to {
        Ok(to) => Ok(Some(DeliveryView { to, packet })),
        Err(v) => Err(v),
    }
}

/// The sessions and the client after a message, and the server's answer.
pub open spec fn on_message(
    sessions: Sessions,
    client: ClientState,
    message: Option<PacketView>,
) -> (Sessions, ClientState, Result<Option<DeliveryView>, Violation>) {
    match message {
        None => (sessions, client, Err(Violation::Malformed)),
        Some(PacketView::Start { session_id, offer_sdp }) => on_start(
            sessions,
            client,
            session_id,
            offer_sdp,
        ),
        Some(PacketView::Offer { .. }) => (sessions, client, Err(Violation::OfferFromClient)),
        Some(PacketView::Answer { sdp }) => (
            sessions,
            client,
            forwarded(forward_to(sessions, client, 0), PacketView::Answer { sdp }),
        ),
        Some(PacketView::ICECandidate { ice_candidate }) => (
            sessions,
            client,
            forwarded(
                forward_to(sessions, client, 1 - client.me),
                PacketView::ICECandidate { ice_candidate },
            ),
        ),
    }
}

/// The sessions after `client` has left: its session counts one client
/// less, and goes once it counts none.
pub open spec fn on_disconnect(sessions: Sessions, client: ClientState) -> Sessions {
    match client.session {
        None => sessions,
        Some(id) => if !sessions.dom().contains(id) {
            sessions
        } else if sessions[id].num_clients <= 1 {
            sessions.remove(id)
        } else {
            sessions.insert(
                id,
                SessionState {
                    num_clients: (sessions[id].num_clients - 1) as nat,
                    ..sessions[id]
                },
            )
        },
    }
}

/// A session never pairs more than two clients, and never counts more
/// clients than joined it.
pub open spec fn bounded(sessions: Sessions) -> bool {
    forall|id: Seq<u8>|
        sessions.dom().contains(id) ==> (#[trigger] sessions[id]).num_clients
            <= sessions[id].sinks.len() <= SESSION_SIZE
}

/// Every message and every departure keeps the sessions bounded.
pub proof fn law_sessions_stay_bounded(
    sessions: Sessions,
    client: ClientState,
    message: Option<PacketView>,
)
    requires
        bounded(sessions),
    ensures
        bounded(on_message(sessions, client, message).0),
        bounded(on_disconnect(sessions, client)),
{
}

/// The second client to join a session gets the first one's offer, an
/// answer goes to the first client, and a candidate goes to the other one.
pub proof fn law_pairing(sessions: Sessions, a: ClientState, b: ClientState, id: Seq<u8>, offer_a: Seq<u8>, offer_b: Seq<u8>, text: Seq<u8>)
    requires
        a.session.is_none(),
        b.session.is_none(),
        !sessions.dom().contains(id),
    ensures
        ({
            let first = on_start(sessions, a, id, offer_a);
            let second = on_start(first.0, b, id, offer_b);
            let answer = PacketView::Answer { sdp: text };
            let candidate = PacketView::ICECandidate { ice_candidate: text };
            &&& first.2 == Ok::<Option<DeliveryView>, Violation>(None)
            &&& second.2 == Ok::<Option<DeliveryView>, Violation>(
                Some(DeliveryView { to: b.id, packet: PacketView::Offer { sdp: offer_a } }),
            )
            &&& on_message(second.0, second.1, Some(answer)).2 == Ok::<
                Option<DeliveryView>,
                Violation,
            >(Some(DeliveryView { to: a.id, packet: answer }))
            &&& on_message(second.0, first.1, Some(candidate)).2 == Ok::<
                Option<DeliveryView>,
                Violation,
            >(Some(DeliveryView { to: b.id, packet: candidate }))
            &&& on_message(second.0, second.1, Some(candidate)).2 == Ok::<
                Option<DeliveryView>,
                Violation,
            >(Some(DeliveryView { to: a.id, packet: candidate }))
        }),
{
}

/// A session as the server keeps it: its id and its state.
struct Entry {
    session_id: Seq<u8>,
    state: SessionState,
}

/// Whether no two entries have the same id.
spec fn distinct(entries: Seq<Entry>) -> bool {
    forall|i: int, j: int|
        0 <= i < j < entries.len() ==> entries[i].session_id != entries[j].session_id
}

/// Where the session named `id` stands in `entries`.
spec fn index_of(entries: Seq<Entry>, id: Seq<u8>) -> Option<int>
    decreases entries.len(),
{
    if entries.len() == 0 {
        None
    } else if entries.last().session_id == id {
        Some(entries.len() - 1)
    } else {
        index_of(entries.drop_last(), id)
    }
}

/// The sessions that a list of entries stands for.
spec fn as_map(entries: Seq<Entry>) -> Sessions
    decreases entries.len(),
{
    if entries.len() == 0 {
        Map::empty()
    } else {
        as_map(entries.drop_last()).insert(entries.last().session_id, entries.last().state)
    }
}

proof fn lemma_index_of(entries: Seq<Entry>, id: Seq<u8>)
    ensures
        match index_of(entries, id) {
            Some(i) => 0 <= i < entries.len() && entries[i].session_id == id,
            None => forall|k: int|
                0 <= k < entries.len() ==> (#[trigger] entries[k]).session_id != id,
        },
    decreases entries.len(),
{
    if entries.len() > 0 && entries.last().session_id != id {
        lemma_index_of(entries.drop_last(), id);
        if index_of(entries, id).is_none() {
            assert forall|k: int| 0 <= k < entries.len() implies (#[trigger] entries[k]).session_id
                != id by {
                if k < entries.len() - 1 {
                    assert(entries.drop_last()[k] == entries[k]);
                }
            }
        }
    }
}

proof fn lemma_as_map_dom(entries: Seq<Entry>, id: Seq<u8>)
    ensures
        as_map(entries).dom().contains(id) <==> index_of(entries, id).is_some(),
    decreases entries.len(),
{
    if entries.len() > 0 {
        lemma_as_map_dom(entries.drop_last(), id);
    }
}

proof fn lemma_distinct_drop_last(entries: Seq<Entry>)
    requires
        distinct(entries),
        entries.len() > 0,
    ensures
        distinct(entries.drop_last()),
        index_of(entries.drop_last(), entries.last().session_id).is_none(),
{
    let head = entries.drop_last();
    assert forall|i: int, j: int| 0 <= i < j < head.len() implies head[i].session_id
        != head[j].session_id by {
        assert(head[i] == entries[i] && head[j] == entries[j]);
    }
    lemma_index_of(head, entries.last().session_id);
    if index_of(head, entries.last().session_id).is_some() {
        let k = index_of(head, entries.last().session_id).unwrap();
        assert(head[k] == entries[k]);
    }
}

proof fn lemma_as_map_at(entries: Seq<Entry>, i: int)
    requires
        distinct(entries),
        0 <= i < entries.len(),
    ensures
        as_map(entries).dom().contains(entries[i].session_id),
        as_map(entries)[entries[i].session_id] == entries[i].state,
    decreases entries.len(),
{
    if i < entries.len() - 1 {
        lemma_distinct_drop_last(entries);
        assert(entries.drop_last()[i] == entries[i]);
        lemma_as_map_at(entries.drop_last(), i);
    }
}

proof fn lemma_as_map_update(entries: Seq<Entry>, i: int, state: SessionState)
    requires
        distinct(entries),
        0 <= i < entries.len(),
    ensures
        distinct(entries.update(i, Entry { session_id: entries[i].session_id, state })),
        as_map(entries.update(i, Entry { session_id: entries[i].session_id, state })) == as_map(
            entries,
        ).insert(entries[i].session_id, state),
    decreases entries.len(),
{
    let id = entries[i].session_id;
    let after = entries.update(i, Entry { session_id: id, state });
    assert forall|a: int, b: int| 0 <= a < b < after.len() implies after[a].session_id
        != after[b].session_id by {
        assert(after[a].session_id == entries[a].session_id);
        assert(after[b].session_id == entries[b].session_id);
    }
    if i == entries.len() - 1 {
        assert(after.drop_last() =~= entries.drop_last());
        assert(as_map(after) =~= as_map(entries).insert(id, state));
    } else {
        lemma_distinct_drop_last(entries);
        assert(entries.drop_last()[i] == entries[i]);
        lemma_as_map_update(entries.drop_last(), i, state);
        assert(after.drop_last() =~= entries.drop_last().update(
            i,
            Entry { session_id: id, state },
        ));
        assert(after.last() == entries.last());
        assert(as_map(after) =~= as_map(entries).insert(id, state));
    }
}

proof fn lemma_as_map_remove(entries: Seq<Entry>, i: int)
    requires
        distinct(entries),
        0 <= i < entries.len(),
    ensures
        distinct(entries.remove(i)),
        as_map(entries.remove(i)) == as_map(entries).remove(entries[i].session_id),
    decreases entries.len(),
{
    let id = entries[i].session_id;
    let after = entries.remove(i);
    assert forall|a: int, b: int| 0 <= a < b < after.len() implies after[a].session_id
        != after[b].session_id by {
        let a0 = if a < i {
            a
        } else {
            a + 1
        };
        let b0 = if b < i {
            b
        } else {
            b + 1
        };
        assert(after[a] == entries[a0] && after[b] == entries[b0]);
    }
    lemma_distinct_drop_last(entries);
    if i == entries.len() - 1 {
        assert(after =~= entries.drop_last());
        lemma_as_map_dom(entries.drop_last(), id);
        assert(as_map(after) =~= as_map(entries).remove(id));
    } else {
        assert(entries.drop_last()[i] == entries[i]);
        lemma_as_map_remove(entries.drop_last(), i);
        assert(after.drop_last() =~= entries.drop_last().remove(i));
        assert(after.last() == entries.last());
        assert(as_map(after) =~= as_map(entries).remove(id));
    }
}

proof fn lemma_as_map_push(entries: Seq<Entry>, entry: Entry)
    requires
        distinct(entries),
        index_of(entries, entry.session_id).is_none(),
    ensures
        distinct(entries.push(entry)),
        as_map(entries.push(entry)) == as_map(entries).insert(entry.session_id, entry.state),
{
    let after = entries.push(entry);
    lemma_index_of(entries, entry.session_id);
    assert forall|a: int, b: int| 0 <= a < b < after.len() implies after[a].session_id
        != after[b].session_id by {
        assert(after[a] == entries[a]);
        if b < entries.len() {
            assert(after[b] == entries[b]);
        }
    }
    assert(after.drop_last() =~= entries);
}

/// One session on the server.
struct Session {
    session_id: Vec<u8>,
    num_clients: usize,
    offer_sdp: Vec<u8>,
    sinks: Vec<u64>,
}

impl Session {
    #[verifier::type_invariant]
    spec fn counts_who_joined(self) -> bool {
        self.num_clients <= self.sinks@.len()
    }
}

impl View for Session {
    type V = Entry;

    closed spec fn view(&self) -> Entry {
        Entry {
            session_id: self.session_id@,
            state: SessionState {
                num_clients: self.num_clients as nat,
                offer_sdp: self.offer_sdp@,
                sinks: self.sinks@,
            },
        }
    }
}

/// One connection's place in the rendezvous.
pub struct Client {
    id: u64,
    session: Option<Vec<u8>>,
    me: usize,
}

impl View for Client {
    type V = ClientState;

    closed spec fn view(&self) -> ClientState {
        ClientState {
            id: self.id,
            session: match self.session {
                Some(id) => Some(id@),
                None => None,
            },
            me: self.me as nat,
        }
    }
}

impl Client {
    /// A connection that has not joined a session.  `id` is the caller's
    /// name for the connection; deliveries are addressed by it.
    pub fn new(id: u64) -> (c: Self)
        ensures
            c@ == (ClientState { id, session: None, me: 0 }),
    {
        Client { id, session: None, me: 0 }
    }

    /// The caller's name for the connection.
    pub fn id(&self) -> (id: u64)
        ensures
            id == self@.id,
    {
        self.id
    }

    /// The client's place in its session: 0 for the one that offers.
    pub fn me(&self) -> (me: usize)
        ensures
            me == self@.me,
    {
        self.me
    }

    /// Whether the client has joined a session.
    pub fn has_session(&self) -> (b: bool)
        ensures
            b == self@.session.is_some(),
    {
        self.session.is_some()
    }
}

/// The rendezvous server: the sessions that wait for their second client or
/// are being paired.
pub struct Server {
    sessions: Vec<Session>,
}

impl View for Server {
    type V = Sessions;

    closed spec fn view(&self) -> Sessions {
        as_map(self.entries())
    }
}

impl Server {
    /// The sessions in the order in which the server keeps them.
    spec fn entries(&self) -> Seq<Entry> {
        Seq::new(self.sessions@.len(), |i: int| self.sessions@[i]@)
    }

    #[verifier::type_invariant]
    spec fn keeps_each_session_once(&self) -> bool {
        distinct(self.entries())
    }

    /// A server with no session.
    pub fn new() -> (s: Self)
        ensures
            s@ == Map::<Seq<u8>, SessionState>::empty(),
    {
        let s = Server { sessions: Vec::new() };
        assert(s.entries() =~= Seq::<Entry>::empty());
        s
    }

    /// Number of sessions.
    pub fn session_count(&self) -> (n: usize)
        ensures
            n == self@.len(),
            self@.dom().finite(),
    {
        proof {
            use_type_invariant(self);
            lemma_as_map_len(self.entries());
        }
        self.sessions.len()
    }

    /// Hands the list of sessions out and leaves an empty one behind.
    fn take_sessions(&mut self) -> (sessions: Vec<Session>)
        ensures
            Seq::new(sessions@.len(), |i: int| sessions@[i]@) == old(self).entries(),
            distinct(old(self).entries()),
    {
        proof {
            use_type_invariant(&*self);
        }
        let mut taken = Server { sessions: Vec::new() };
        core::mem::swap(self, &mut taken);
        let Server { sessions } = taken;
        assert(Seq::new(sessions@.len(), |i: int| sessions@[i]@) =~= old(self).entries());
        sessions
    }

    fn find(&self, id: &[u8]) -> (r: Option<usize>)
        ensures
            match r {
                Some(i) => {
                    &&& index_of(self.entries(), id@) == Some(i as int)
                    &&& i < self.sessions@.len()
                    &&& self.entries()[i as int] == self.sessions@[i as int]@
                    &&& self.sessions@[i as int].session_id@ == id@
                },
                None => index_of(self.entries(), id@).is_none(),
            },
    {
        let ghost entries = self.entries();
        proof {
            lemma_index_of(entries, id@);
        }
        let mut i: usize = self.sessions.len();
        assert(entries.take(entries.len() as int) =~= entries);
        while i > 0
            invariant
                i <= self.sessions@.len(),
                entries == self.entries(),
                index_of(entries, id@) == index_of(entries.take(i as int), id@),
            decreases i,
        {
            let ghost head = entries.take(i as int);
            assert(head.last() == self.sessions@[i - 1]@);
            assert(head.drop_last() =~= entries.take(i - 1));
            if same_bytes(self.sessions[i - 1].session_id.as_slice(), id) {
                return Some(i - 1);
            }
            i -= 1;
        }
        None
    }

    /// Takes one message from `client` and says what to deliver.  On a
    /// violation nothing changes; the caller drops the connection and
    /// reports it with `disconnect`.
    pub fn handle_message(&mut self, client: &mut Client, data: &[u8]) -> (r: Result<
        Option<Delivery>,
        Violation,
    >)
        ensures
            (final(self)@, final(client)@, reply_view(r)) == on_message(
                old(self)@,
                old(client)@,
                deserialized(data@),
            ),
    {
        match Packet::deserialize(data) {
            None => Err(Violation::Malformed),
            Some(Packet::Start(start)) => self.start(client, start.session_id, start.offer_sdp),
            Some(Packet::Offer(_)) => Err(Violation::OfferFromClient),
            Some(Packet::Answer(answer)) => match self.peer(client, 0) {
                Ok(to) => Ok(Some(Delivery { to, packet: Packet::Answer(answer) })),
                Err(v) => Err(v),
            },
            Some(Packet::ICECandidate(candidate)) => {
                if client.me > 1 {
                    return match self.peer(client, 0) {
                        Err(Violation::NoSession) => Err(Violation::NoSession),
                        _ => Err(Violation::PeerMissing),
                    };
                }
                match self.peer(client, 1 - client.me) {
                    Ok(to) => Ok(Some(Delivery { to, packet: Packet::ICECandidate(candidate) })),
                    Err(v) => Err(v),
                }
            },
        }
    }

    fn peer(&self, client: &Client, slot: usize) -> (r: Result<u64, Violation>)
        ensures
            r == forward_to(self@, client@, slot as int),
    {
        proof {
            use_type_invariant(self);
        }
        match &client.session {
            None => Err(Violation::NoSession),
            Some(id) => {
                proof {
                    lemma_as_map_dom(self.entries(), id@);
                }
                match self.find(id.as_slice()) {
                    None => Err(Violation::NoSession),
                    Some(i) => {
                        proof {
                            lemma_as_map_at(self.entries(), i as int);
                        }
                        if slot < self.sessions[i].sinks.len() {
                            Ok(self.sessions[i].sinks[slot])
                        } else {
                            Err(Violation::PeerMissing)
                        }
                    },
                }
            },
        }
    }

    fn start(&mut self, client: &mut Client, session_id: Vec<u8>, offer_sdp: Vec<u8>) -> (r: Result<
        Option<Delivery>,
        Violation,
    >)
        ensures
            (final(self)@, final(client)@, reply_view(r)) == on_start(
                old(self)@,
                old(client)@,
                session_id@,
                offer_sdp@,
            ),
    {
        if client.session.is_some() {
            return Err(Violation::AlreadyStarted);
        }
        let ghost before = self.entries();
        proof {
            use_type_invariant(&*self);
            lemma_as_map_dom(before, session_id@);
        }
        match self.find(session_id.as_slice()) {
            None => {
                let mut sinks: Vec<u64> = Vec::new();
                sinks.push(client.id);
                let id = session_id.clone();
                let session = Session { session_id, num_clients: 1, offer_sdp, sinks };
                let ghost entry = session@;
                let mut sessions = self.take_sessions();
                sessions.push(session);
                proof {
                    assert(Seq::new(sessions@.len(), |i: int| sessions@[i]@) =~= before.push(
                        entry,
                    ));
                    lemma_as_map_push(before, entry);
                }
                *self = Server { sessions };
                client.session = Some(id);
                client.me = 0;
                Ok(None)
            },
            Some(i) => {
                proof {
                    lemma_as_map_at(before, i as int);
                }
                let me = self.sessions[i].sinks.len();
                if me >= SESSION_SIZE {
                    return Err(Violation::SessionFull);
                }
                let mut sessions = self.take_sessions();
                let joined = sessions.remove(i);
                proof {
                    use_type_invariant(&joined);
                }
                let Session { session_id: id, num_clients, offer_sdp: offer, sinks } = joined;
                let mut sinks = sinks;
                sinks.push(client.id);
                let reply = if me == 1 {
                    Some(
                        Delivery { to: client.id, packet: Packet::Offer(Offer { sdp: offer.clone() }) },
                    )
                } else {
                    None
                };
                let session = Session {
                    session_id: id,
                    num_clients: num_clients + 1,
                    offer_sdp: offer,
                    sinks,
                };
                let ghost new_entry = session@;
                sessions.insert(i, session);
                proof {
                    assert(Seq::new(sessions@.len(), |k: int| sessions@[k]@) =~= before.update(
                        i as int,
                        new_entry,
                    ));
                    lemma_as_map_update(before, i as int, new_entry.state);
                }
                *self = Server { sessions };
                client.session = Some(session_id);
                client.me = me;
                Ok(reply)
            },
        }
    }

    /// The connection of `client` is gone.
    pub fn disconnect(&mut self, client: Client)
        ensures
            final(self)@ == on_disconnect(old(self)@, client@),
    {
        match &client.session {
            None => {},
            Some(id) => {
                let ghost before = self.entries();
                proof {
                    use_type_invariant(&*self);
                    lemma_as_map_dom(before, id@);
                }
                match self.find(id.as_slice()) {
                    None => {},
                    Some(i) => {
                        proof {
                            lemma_as_map_at(before, i as int);
                        }
                        let mut sessions = self.take_sessions();
                        let mut session = sessions.remove(i);
                        proof {
                            use_type_invariant(&session);
                        }
                        if session.num_clients <= 1 {
                            proof {
                                assert(Seq::new(sessions@.len(), |k: int| sessions@[k]@)
                                    =~= before.remove(i as int));
                                lemma_as_map_remove(before, i as int);
                            }
                        } else {
                            session.num_clients = session.num_clients - 1;
                            let ghost new_entry = session@;
                            sessions.insert(i, session);
                            proof {
                                assert(Seq::new(sessions@.len(), |k: int| sessions@[k]@)
                                    =~= before.update(i as int, new_entry));
                                lemma_as_map_update(before, i as int, new_entry.state);
                            }
                        }
                        *self = Server { sessions };
                    },
                }
            },
        }
    }
}

proof fn lemma_as_map_len(entries: Seq<Entry>)
    requires
        distinct(entries),
    ensures
        as_map(entries).dom().finite(),
        as_map(entries).len() == entries.len(),
    decreases entries.len(),
{
    if entries.len() > 0 {
        lemma_distinct_drop_last(entries);
        lemma_as_map_len(entries.drop_last());
        lemma_as_map_dom(entries.drop_last(), entries.last().session_id);
    }
}

} // verus!
