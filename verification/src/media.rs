pub mod manager;

pub use manager::RoomManager;

use crate::ids::ObjectId;
use crate::seqs::{filter_source, lemma_filter_is_subsequence, views};
use vstd::prelude::*;

verus! {

/// The kind of a media track.
#[derive(Clone, Copy, Debug, PartialEq, Eq, Structural)]
pub enum MediaKind {
    Audio,
    Video,
}

/// Why the room manager refused a request.
#[derive(Clone, Copy, Debug, PartialEq, Eq, Structural)]
pub enum MediaError {
    /// No media room with that identifier.
    RoomMissing,
    /// The connection has no transports in the room, or not the one named.
    TransportMissing,
    /// The transport that the request needs has not been connected yet.
    TransportNotConnected,
    /// No such producer in the room.
    ProducerMissing,
    /// The consumer's capabilities hold no codec for the producer.
    Incompatible,
    /// No identifier is left to give out.
    Exhausted,
}

/// One of a participant's two transports.
#[derive(Clone, Copy, Debug, PartialEq, Eq, Structural)]
pub struct Transport {
    pub id: u64,
    pub connected: bool,
}

/// A media track that a participant sends.
#[derive(Debug)]
pub struct Producer {
    pub id: u64,
    pub kind: MediaKind,
    pub source: String,
    /// The RTP tap attached to the producer, if any.
    pub tap: Option<u64>,
}

/// What a [`Producer`] holds, as mathematical values.
pub ghost struct ProducerView {
    pub id: u64,
    pub kind: MediaKind,
    pub source: Seq<char>,
    pub tap: Option<u64>,
}

impl View for Producer {
    type V = ProducerView;

    open spec fn view(&self) -> ProducerView {
        ProducerView { id: self.id, kind: self.kind, source: self.source@, tap: self.tap }
    }
}

/// A participant's reception of one producer.
#[derive(Clone, Copy, Debug, PartialEq, Eq, Structural)]
pub struct Consumer {
    pub id: u64,
    pub producer_id: u64,
    pub kind: MediaKind,
}

/// One connection's presence in a media room.
#[derive(Debug)]
pub struct Participant {
    pub connection_id: String,
    pub user_id: ObjectId,
    pub send_transport: Transport,
    pub recv_transport: Transport,
    pub producers: Vec<Producer>,
    pub consumers: Vec<Consumer>,
}

/// What a [`Participant`] holds, as mathematical values.
pub ghost struct ParticipantView {
    pub connection_id: Seq<char>,
    pub user_id: ObjectId,
    pub send_transport: Transport,
    pub recv_transport: Transport,
    pub producers: Seq<ProducerView>,
    pub consumers: Seq<Consumer>,
}

impl View for Participant {
    type V = ParticipantView;

    open spec fn view(&self) -> ParticipantView {
        ParticipantView {
            connection_id: self.connection_id@,
            user_id: self.user_id,
            send_transport: self.send_transport,
            recv_transport: self.recv_transport,
            producers: views(self.producers@),
            consumers: self.consumers@,
        }
    }
}

/// Where a connection stands in joining a room's call.
#[derive(Clone, Copy, Debug, PartialEq, Eq, Structural)]
pub enum JoinState {
    /// No transports yet.
    Fresh,
    /// Transports created, none connected.
    TransportsCreated,
    /// The send transport is connected, the receive transport is not.
    SendConnected,
    /// The receive transport is connected, the send transport is not.
    RecvConnected,
    /// Both transports are connected.
    Ready,
}

impl ParticipantView {
    /// Where the participant stands in joining.
    pub open spec fn join_state(self) -> JoinState {
        if self.send_transport.connected && self.recv_transport.connected {
            JoinState::Ready
        } else if self.send_transport.connected {
            JoinState::SendConnected
        } else if self.recv_transport.connected {
            JoinState::RecvConnected
        } else {
            JoinState::TransportsCreated
        }
    }

    /// The identifiers the participant holds are all below `limit`, and no
    /// two of its transports, producers, taps and consumers share one.
    pub open spec fn ids_below(self, limit: u64) -> bool {
        &&& self.send_transport.id < limit
        &&& self.recv_transport.id < limit
        &&& self.send_transport.id != self.recv_transport.id
        &&& forall|i: int|
            0 <= i < self.producers.len() ==> (#[trigger] self.producers[i]).id < limit
        &&& forall|i: int|
            0 <= i < self.producers.len() && self.producers[i].tap is Some ==> (
            #[trigger] self.producers[i]).tap.unwrap() < limit
        &&& forall|i: int|
            0 <= i < self.consumers.len() ==> (#[trigger] self.consumers[i]).id < limit
        &&& forall|i: int, j: int|
            0 <= i < j < self.producers.len() ==> (#[trigger] self.producers[i]).id != (
            #[trigger] self.producers[j]).id
    }
}

/// A room's call on the media plane: who is in it and what they send.
#[derive(Debug)]
pub struct MediaRoom {
    pub room_id: ObjectId,
    pub participants: Vec<Participant>,
}

/// What a [`MediaRoom`] holds, as mathematical values.
pub ghost struct RoomView {
    pub room_id: ObjectId,
    pub participants: Seq<ParticipantView>,
}

impl View for MediaRoom {
    type V = RoomView;

    open spec fn view(&self) -> RoomView {
        RoomView { room_id: self.room_id, participants: views(self.participants@) }
    }
}

/// The connections of `participants`, in order.
pub open spec fn connections_of(participants: Seq<ParticipantView>) -> Seq<Seq<char>> {
    Seq::new(participants.len(), |i: int| participants[i].connection_id)
}

/// The predicate that holds of every participant but the one on `connection_id`.
pub open spec fn not_on(connection_id: Seq<char>) -> spec_fn(ParticipantView) -> bool {
    |p: ParticipantView| p.connection_id != connection_id
}

/// The predicate that holds of every producer but the one named `producer_id`.
pub open spec fn not_producer(producer_id: u64) -> spec_fn(ProducerView) -> bool {
    |p: ProducerView| p.id != producer_id
}

impl RoomView {
    /// Whether the connection takes part in the room.
    pub open spec fn has_connection(self, connection_id: Seq<char>) -> bool {
        exists|i: int|
            0 <= i < self.participants.len() && (#[trigger] self.participants[i]).connection_id
                == connection_id
    }

    /// The connection's participant record; meaningful where the connection takes part.
    pub open spec fn participant(self, connection_id: Seq<char>) -> ParticipantView {
        let i = choose|i: int|
            0 <= i < self.participants.len() && (#[trigger] self.participants[i]).connection_id
                == connection_id;
        self.participants[i]
    }

    /// Where the connection stands in joining the room's call.
    pub open spec fn join_state(self, connection_id: Seq<char>) -> JoinState {
        if self.has_connection(connection_id) {
            self.participant(connection_id).join_state()
        } else {
            JoinState::Fresh
        }
    }

    /// The room without the connection's participant record.
    pub open spec fn without(self, connection_id: Seq<char>) -> RoomView {
        RoomView { participants: self.participants.filter(not_on(connection_id)), ..self }
    }

    /// The room with the participant record `p` in place of the one on the same connection.
    pub open spec fn put(self, p: ParticipantView) -> RoomView {
        RoomView {
            participants: Seq::new(
                self.participants.len(),
                |i: int|
                    if self.participants[i].connection_id == p.connection_id {
                        p
                    } else {
                        self.participants[i]
                    },
            ),
            ..self
        }
    }

    /// The room after the participant `p` joined: a record on the same
    /// connection is gone, and `p` is the last to have joined.
    pub open spec fn joined(self, p: ParticipantView) -> RoomView {
        RoomView {
            participants: self.participants.filter(not_on(p.connection_id)).push(p),
            ..self
        }
    }

    /// The connections in the room other than `connection_id`, in joining order.
    pub open spec fn other_connections(self, connection_id: Seq<char>) -> Seq<Seq<char>> {
        connections_of(self.participants.filter(not_on(connection_id)))
    }

    /// The users of the participants, one entry per connection, in joining order.
    pub open spec fn participant_users(self) -> Seq<ObjectId> {
        Seq::new(self.participants.len(), |i: int| self.participants[i].user_id)
    }

    /// No two participants share a connection, no two producers an
    /// identifier, and every identifier is below `limit`.
    pub open spec fn wf(self, limit: u64) -> bool {
        &&& forall|i: int, j: int|
            0 <= i < j < self.participants.len() ==> (#[trigger] self.participants[i]).connection_id
                != (#[trigger] self.participants[j]).connection_id
        &&& forall|i: int|
            0 <= i < self.participants.len() ==> (#[trigger] self.participants[i]).ids_below(
                limit,
            )
    }
}

/// The predicate that holds of every room but the one named `room_id`.
pub open spec fn not_room(room_id: ObjectId) -> spec_fn(RoomView) -> bool {
    |r: RoomView| r.room_id != room_id
}

/// What a [`RoomManager`] holds, as mathematical values.
pub ghost struct ManagerView {
    pub rooms: Seq<RoomView>,
    pub next_id: u64,
}

impl ManagerView {
    /// Whether a media room exists for `room_id`.
    pub open spec fn has_room(self, room_id: ObjectId) -> bool {
        exists|i: int| 0 <= i < self.rooms.len() && (#[trigger] self.rooms[i]).room_id == room_id
    }

    /// The media room of `room_id`; meaningful where it exists.
    pub open spec fn room(self, room_id: ObjectId) -> RoomView {
        let i = choose|i: int|
            0 <= i < self.rooms.len() && (#[trigger] self.rooms[i]).room_id == room_id;
        self.rooms[i]
    }

    /// The manager with `room` in place of the room of the same identifier.
    pub open spec fn put_room(self, room: RoomView) -> ManagerView {
        ManagerView {
            rooms: Seq::new(
                self.rooms.len(),
                |i: int|
                    if self.rooms[i].room_id == room.room_id {
                        room
                    } else {
                        self.rooms[i]
                    },
            ),
            ..self
        }
    }

    /// The manager without the room of `room_id`.
    pub open spec fn without_room(self, room_id: ObjectId) -> ManagerView {
        ManagerView { rooms: self.rooms.filter(not_room(room_id)), ..self }
    }

    /// The manager after it gave out `count` identifiers.
    pub open spec fn after_ids(self, count: u64) -> ManagerView {
        ManagerView { next_id: (self.next_id + count) as u64, ..self }
    }

    /// The room that the connection takes part in: the first that holds it.
    pub open spec fn connection_room(self, connection_id: Seq<char>) -> Option<ObjectId>
        decreases self.rooms.len(),
    {
        if self.rooms.len() == 0 {
            None
        } else if self.rooms[0].has_connection(connection_id) {
            Some(self.rooms[0].room_id)
        } else {
            ManagerView { rooms: self.rooms.drop_first(), ..self }.connection_room(connection_id)
        }
    }

    /// No two rooms share an identifier, every room is well-formed, and
    /// every identifier given out is below the next one.
    pub open spec fn wf(self) -> bool {
        &&& forall|i: int, j: int|
            0 <= i < j < self.rooms.len() ==> (#[trigger] self.rooms[i]).room_id != (
            #[trigger] self.rooms[j]).room_id
        &&& forall|i: int| 0 <= i < self.rooms.len() ==> (#[trigger] self.rooms[i]).wf(self.next_id)
    }
}

/// The room that a connection is found in exists and holds the
/// connection; a connection that is found in no room is in none.
pub proof fn lemma_connection_room_is_joined(m: ManagerView, connection_id: Seq<char>)
    requires
        m.wf(),
    ensures
        match m.connection_room(connection_id) {
            Some(room_id) => m.has_room(room_id) && m.room(room_id).has_connection(connection_id),
            None => forall|i: int|
                0 <= i < m.rooms.len() ==> !(#[trigger] m.rooms[i]).has_connection(connection_id),
        },
    decreases m.rooms.len(),
{
    if m.rooms.len() > 0 && !m.rooms[0].has_connection(connection_id) {
        let rest = ManagerView { rooms: m.rooms.drop_first(), ..m };
        assert forall|i: int| 0 <= i < rest.rooms.len() implies (#[trigger] rest.rooms[i])
            == m.rooms[i + 1] by {}
        assert(rest.wf()) by {
            assert forall|i: int, j: int| 0 <= i < j < rest.rooms.len() implies (
            #[trigger] rest.rooms[i]).room_id != (#[trigger] rest.rooms[j]).room_id by {
                assert(m.rooms[i + 1].room_id != m.rooms[j + 1].room_id);
            }
            assert forall|i: int| 0 <= i < rest.rooms.len() implies (#[trigger] rest.rooms[i]).wf(
                rest.next_id,
            ) by {
                assert(m.rooms[i + 1].wf(m.next_id));
            }
        }
        lemma_connection_room_is_joined(rest, connection_id);
        match rest.connection_room(connection_id) {
            Some(room_id) => {
                let k = choose|k: int|
                    0 <= k < rest.rooms.len() && (#[trigger] rest.rooms[k]).room_id == room_id;
                assert(m.rooms[k + 1].room_id == room_id);
                assert(m.has_room(room_id));
                let found = choose|i: int|
                    0 <= i < m.rooms.len() && (#[trigger] m.rooms[i]).room_id == room_id;
                assert(found == k + 1) by {
                    if found < k + 1 {
                        assert(m.rooms[found].room_id != m.rooms[k + 1].room_id);
                    } else if found > k + 1 {
                        assert(m.rooms[k + 1].room_id != m.rooms[found].room_id);
                    }
                }
                assert(rest.room(room_id) == rest.rooms[k]);
            },
            None => {
                assert forall|i: int| 0 <= i < m.rooms.len() implies !(#[trigger] m.rooms[i]).has_connection(
                    connection_id,
                ) by {
                    if i > 0 {
                        assert(rest.rooms[i - 1] == m.rooms[i]);
                    }
                }
            },
        }
    } else if m.rooms.len() > 0 {
        let room_id = m.rooms[0].room_id;
        assert(m.has_room(room_id));
        let found = choose|i: int|
            0 <= i < m.rooms.len() && (#[trigger] m.rooms[i]).room_id == room_id;
        if found > 0 {
            assert(m.rooms[0].room_id != m.rooms[found].room_id);
        }
    }
}

/// In a well-formed room, the record found on a connection is the connection's record.
pub proof fn lemma_participant_at(room: RoomView, limit: u64, i: int)
    requires
        room.wf(limit),
        0 <= i < room.participants.len(),
    ensures
        room.has_connection(room.participants[i].connection_id),
        room.participant(room.participants[i].connection_id) == room.participants[i],
{
    let c = room.participants[i].connection_id;
    let k = choose|k: int|
        0 <= k < room.participants.len() && (#[trigger] room.participants[k]).connection_id == c;
    if k < i {
        assert(room.participants[k].connection_id != room.participants[i].connection_id);
    } else if i < k {
        assert(room.participants[i].connection_id != room.participants[k].connection_id);
    }
}

/// In a well-formed manager, the room found under an identifier is that identifier's room.
pub proof fn lemma_room_at(m: ManagerView, i: int)
    requires
        m.wf(),
        0 <= i < m.rooms.len(),
    ensures
        m.has_room(m.rooms[i].room_id),
        m.room(m.rooms[i].room_id) == m.rooms[i],
{
    let r = m.rooms[i].room_id;
    let k = choose|k: int| 0 <= k < m.rooms.len() && (#[trigger] m.rooms[k]).room_id == r;
    if k < i {
        assert(m.rooms[k].room_id != m.rooms[i].room_id);
    } else if i < k {
        assert(m.rooms[i].room_id != m.rooms[k].room_id);
    }
}

/// The source tag of a producer: the one given, or `audio` for an audio
/// track and `camera` for a video track where none is given.
pub open spec fn source_or_default(kind: MediaKind, source: Option<Seq<char>>) -> Seq<char> {
    match source {
        Some(s) => s,
        None => match kind {
            MediaKind::Audio => "audio"@,
            MediaKind::Video => "camera"@,
        },
    }
}

/// The first producer named `producer_id` among `producers`.
pub open spec fn producer_among(producers: Seq<ProducerView>, producer_id: u64) -> Option<
    ProducerView,
>
    decreases producers.len(),
{
    if producers.len() == 0 {
        None
    } else if producers[0].id == producer_id {
        Some(producers[0])
    } else {
        producer_among(producers.drop_first(), producer_id)
    }
}

/// The first producer named `producer_id` that one of `participants` sends.
pub open spec fn producer_in(participants: Seq<ParticipantView>, producer_id: u64) -> Option<
    ProducerView,
>
    decreases participants.len(),
{
    if participants.len() == 0 {
        None
    } else {
        match producer_among(participants[0].producers, producer_id) {
            Some(p) => Some(p),
            None => producer_in(participants.drop_first(), producer_id),
        }
    }
}

/// A producer as announced to the other participants of its room.
#[derive(Debug)]
pub struct ProducerInfo {
    pub user_id: ObjectId,
    pub connection_id: String,
    pub producer_id: u64,
    pub kind: MediaKind,
    pub source: String,
}

/// What a [`ProducerInfo`] holds, as mathematical values.
pub ghost struct ProducerInfoView {
    pub user_id: ObjectId,
    pub connection_id: Seq<char>,
    pub producer_id: u64,
    pub kind: MediaKind,
    pub source: Seq<char>,
}

impl View for ProducerInfo {
    type V = ProducerInfoView;

    open spec fn view(&self) -> ProducerInfoView {
        ProducerInfoView {
            user_id: self.user_id,
            connection_id: self.connection_id@,
            producer_id: self.producer_id,
            kind: self.kind,
            source: self.source@,
        }
    }
}

/// The announcements of the producers of one participant.
pub open spec fn announcements(p: ParticipantView) -> Seq<ProducerInfoView> {
    Seq::new(
        p.producers.len(),
        |j: int|
            ProducerInfoView {
                user_id: p.user_id,
                connection_id: p.connection_id,
                producer_id: p.producers[j].id,
                kind: p.producers[j].kind,
                source: p.producers[j].source,
            },
    )
}

/// The announcements of all producers of `participants` but those sent on
/// `connection_id`, participant by participant in joining order.
pub open spec fn visible_producers(
    participants: Seq<ParticipantView>,
    connection_id: Seq<char>,
) -> Seq<ProducerInfoView>
    decreases participants.len(),
{
    if participants.len() == 0 {
        Seq::empty()
    } else {
        let before = visible_producers(participants.drop_last(), connection_id);
        if participants.last().connection_id == connection_id {
            before
        } else {
            before + announcements(participants.last())
        }
    }
}

/// The two transports that a connection got on joining, and the pair they replace, if any.
#[derive(Clone, Copy, Debug, PartialEq, Eq, Structural)]
pub struct TransportPair {
    pub send_id: u64,
    pub recv_id: u64,
    /// The send transport that the connection had before; it is to be closed.
    pub replaced_send: Option<u64>,
    /// The receive transport that the connection had before; it is to be closed.
    pub replaced_recv: Option<u64>,
}

/// The RTP tap attached to a producer, and the one it replaces, if any.
#[derive(Clone, Copy, Debug, PartialEq, Eq, Structural)]
pub struct RtpTap {
    pub id: u64,
    pub replaced: Option<u64>,
}

/// A record on a connection that has just joined: two fresh transports, nothing sent or received.
pub open spec fn fresh_participant(
    connection_id: Seq<char>,
    user_id: ObjectId,
    first_id: u64,
) -> ParticipantView {
    ParticipantView {
        connection_id,
        user_id,
        send_transport: Transport { id: first_id, connected: false },
        recv_transport: Transport { id: (first_id + 1) as u64, connected: false },
        producers: Seq::empty(),
        consumers: Seq::empty(),
    }
}

/// A well-formed room stays so under a larger bound on its identifiers.
pub proof fn lemma_room_wf_grows(room: RoomView, limit: u64, larger: u64)
    requires
        room.wf(limit),
        limit <= larger,
    ensures
        room.wf(larger),
{
    assert forall|i: int| 0 <= i < room.participants.len() implies (
    #[trigger] room.participants[i]).ids_below(larger) by {
        assert(room.participants[i].ids_below(limit));
    }
}

/// Joining keeps a room well-formed where the new record is.
pub proof fn lemma_joined_wf(room: RoomView, p: ParticipantView, limit: u64)
    requires
        room.wf(limit),
        p.ids_below(limit),
    ensures
        room.joined(p).wf(limit),
{
    let keep = not_on(p.connection_id);
    let kept = room.participants.filter(keep);
    lemma_filter_is_subsequence(room.participants, keep);
    let after = kept.push(p);
    assert forall|i: int| 0 <= i < after.len() implies (#[trigger] after[i]).ids_below(limit) by {
        if i < kept.len() {
            let k = filter_source(room.participants, keep, i);
            assert(room.participants[k].ids_below(limit));
        }
    }
    assert forall|i: int, j: int| 0 <= i < j < after.len() implies (
    #[trigger] after[i]).connection_id != (#[trigger] after[j]).connection_id by {
        let a = filter_source(room.participants, keep, i);
        if j < kept.len() {
            let b = filter_source(room.participants, keep, j);
            assert(room.participants[a].connection_id != room.participants[b].connection_id);
        } else {
            assert(keep(room.participants[a]));
        }
    }
}

/// The first of `participants` that sends a producer named `producer_id`.
pub open spec fn producer_owner(participants: Seq<ParticipantView>, producer_id: u64) -> Option<
    ParticipantView,
>
    decreases participants.len(),
{
    if participants.len() == 0 {
        None
    } else if producer_among(participants[0].producers, producer_id) is Some {
        Some(participants[0])
    } else {
        producer_owner(participants.drop_first(), producer_id)
    }
}

/// `producers` with the tap of the producer named `producer_id` set to `tap`.
pub open spec fn with_tap(producers: Seq<ProducerView>, producer_id: u64, tap: Option<u64>) -> Seq<
    ProducerView,
> {
    Seq::new(
        producers.len(),
        |k: int|
            if producers[k].id == producer_id {
                ProducerView { tap, ..producers[k] }
            } else {
                producers[k]
            },
    )
}

/// The transports of `p` after the one named `transport_id` was connected.
pub open spec fn with_connected(p: ParticipantView, transport_id: u64) -> ParticipantView {
    if p.send_transport.id == transport_id {
        ParticipantView { send_transport: Transport { id: transport_id, connected: true }, ..p }
    } else {
        ParticipantView { recv_transport: Transport { id: transport_id, connected: true }, ..p }
    }
}

/// What `connect_transport` answers in the state `m`.
pub open spec fn connect_outcome(
    m: ManagerView,
    room_id: ObjectId,
    connection_id: Seq<char>,
    transport_id: u64,
) -> Result<bool, MediaError> {
    if !m.has_room(room_id) {
        Err(MediaError::RoomMissing)
    } else if !m.room(room_id).has_connection(connection_id) {
        Err(MediaError::TransportMissing)
    } else {
        let p = m.room(room_id).participant(connection_id);
        if p.send_transport.id == transport_id {
            Ok(!p.send_transport.connected)
        } else if p.recv_transport.id == transport_id {
            Ok(!p.recv_transport.connected)
        } else {
            Err(MediaError::TransportMissing)
        }
    }
}

/// What `produce` answers in the state `m`.
pub open spec fn produce_outcome(m: ManagerView, room_id: ObjectId, connection_id: Seq<char>)
    -> Result<u64, MediaError> {
    if !m.has_room(room_id) {
        Err(MediaError::RoomMissing)
    } else if !m.room(room_id).has_connection(connection_id) {
        Err(MediaError::TransportMissing)
    } else if !m.room(room_id).participant(connection_id).send_transport.connected {
        Err(MediaError::TransportNotConnected)
    } else if m.next_id == u64::MAX {
        Err(MediaError::Exhausted)
    } else {
        Ok(m.next_id)
    }
}

/// What `consume` answers in the state `m`.
pub open spec fn consume_outcome(
    m: ManagerView,
    room_id: ObjectId,
    connection_id: Seq<char>,
    producer_id: u64,
    compatible: bool,
) -> Result<Consumer, MediaError> {
    if !m.has_room(room_id) {
        Err(MediaError::RoomMissing)
    } else if !m.room(room_id).has_connection(connection_id) {
        Err(MediaError::TransportMissing)
    } else if !m.room(room_id).participant(connection_id).recv_transport.connected {
        Err(MediaError::TransportNotConnected)
    } else {
        match producer_in(m.room(room_id).participants, producer_id) {
            None => Err(MediaError::ProducerMissing),
            Some(producer) => if !compatible {
                Err(MediaError::Incompatible)
            } else if m.next_id == u64::MAX {
                Err(MediaError::Exhausted)
            } else {
                Ok(Consumer { id: m.next_id, producer_id, kind: producer.kind })
            },
        }
    }
}

/// What `create_rtp_tap` answers in the state `m`.
pub open spec fn tap_outcome(m: ManagerView, room_id: ObjectId, producer_id: u64) -> Result<
    RtpTap,
    MediaError,
> {
    if !m.has_room(room_id) {
        Err(MediaError::RoomMissing)
    } else {
        match producer_in(m.room(room_id).participants, producer_id) {
            None => Err(MediaError::ProducerMissing),
            Some(producer) => if m.next_id == u64::MAX {
                Err(MediaError::Exhausted)
            } else {
                Ok(RtpTap { id: m.next_id, replaced: producer.tap })
            },
        }
    }
}

/// Whether the connection sends the producer in the room.
pub open spec fn sends_producer(
    m: ManagerView,
    room_id: ObjectId,
    connection_id: Seq<char>,
    producer_id: u64,
) -> bool {
    &&& m.has_room(room_id)
    &&& m.room(room_id).has_connection(connection_id)
    &&& producer_among(m.room(room_id).participant(connection_id).producers, producer_id) is Some
}

/// What `create_transports` answers in the state `m`.
pub open spec fn join_result(m: ManagerView, room_id: ObjectId, connection_id: Seq<char>) -> Result<
    TransportPair,
    MediaError,
> {
    if !m.has_room(room_id) {
        Err(MediaError::RoomMissing)
    } else if m.next_id > u64::MAX - 2 {
        Err(MediaError::Exhausted)
    } else {
        let room = m.room(room_id);
        let replaced = room.has_connection(connection_id);
        Ok(
            TransportPair {
                send_id: m.next_id,
                recv_id: (m.next_id + 1) as u64,
                replaced_send: if replaced {
                    Some(room.participant(connection_id).send_transport.id)
                } else {
                    None
                },
                replaced_recv: if replaced {
                    Some(room.participant(connection_id).recv_transport.id)
                } else {
                    None
                },
            },
        )
    }
}

/// The state that `create_transports` leaves behind where it succeeds in the state `m`.
pub open spec fn after_join(
    m: ManagerView,
    room_id: ObjectId,
    user_id: ObjectId,
    connection_id: Seq<char>,
) -> ManagerView {
    m.after_ids(2).put_room(
        m.room(room_id).joined(fresh_participant(connection_id, user_id, m.next_id)),
    )
}

/// Transports are keyed by connection. When one connection asks for
/// transports twice in a room, the second pair is new: its identifiers
/// differ from those of the first pair, which it replaces and hands back for
/// closing.
pub proof fn lemma_rejoin_replaces_transports(
    m: ManagerView,
    room_id: ObjectId,
    user_id: ObjectId,
    connection_id: Seq<char>,
)
    requires
        m.wf(),
        join_result(m, room_id, connection_id) is Ok,
        join_result(after_join(m, room_id, user_id, connection_id), room_id, connection_id) is Ok,
    ensures
        ({
            let first = join_result(m, room_id, connection_id).unwrap();
            let second = join_result(
                after_join(m, room_id, user_id, connection_id),
                room_id,
                connection_id,
            ).unwrap();
            &&& second.send_id != first.send_id
            &&& second.send_id != first.recv_id
            &&& second.recv_id != first.recv_id
            &&& second.recv_id != first.send_id
            &&& second.replaced_send == Some(first.send_id)
            &&& second.replaced_recv == Some(first.recv_id)
        }),
{
    let at = choose|i: int| 0 <= i < m.rooms.len() && (#[trigger] m.rooms[i]).room_id == room_id;
    lemma_room_at(m, at);
    let room = m.rooms[at];
    let fresh = fresh_participant(connection_id, user_id, m.next_id);
    let m1 = after_join(m, room_id, user_id, connection_id);
    let joined = room.joined(fresh);
    assert(m1.rooms[at] == joined);
    lemma_room_wf_grows(room, m.next_id, m1.next_id);
    lemma_joined_wf(room, fresh, m1.next_id);
    assert(m1.wf()) by {
        assert forall|i: int| 0 <= i < m1.rooms.len() implies (#[trigger] m1.rooms[i]).wf(
            m1.next_id,
        ) by {
            if m.rooms[i].room_id != room_id {
                assert(m.rooms[i].wf(m.next_id));
                lemma_room_wf_grows(m.rooms[i], m.next_id, m1.next_id);
            }
        }
        assert forall|a: int, b: int| 0 <= a < b < m1.rooms.len() implies (
        #[trigger] m1.rooms[a]).room_id != (#[trigger] m1.rooms[b]).room_id by {
            assert(m.rooms[a].room_id != m.rooms[b].room_id);
        }
    }
    lemma_room_at(m1, at);
    let last = joined.participants.len() - 1;
    assert(joined.participants[last] == fresh);
    lemma_participant_at(joined, m1.next_id, last);
}

/// The state that `produce` leaves behind where it succeeds in the state `m`.
pub open spec fn after_produce(
    m: ManagerView,
    room_id: ObjectId,
    connection_id: Seq<char>,
    kind: MediaKind,
    source: Option<Seq<char>>,
) -> ManagerView {
    let p = m.room(room_id).participant(connection_id);
    m.after_ids(1).put_room(
        m.room(room_id).put(
            ParticipantView {
                producers: p.producers.push(
                    ProducerView {
                        id: m.next_id,
                        kind,
                        source: source_or_default(kind, source),
                        tap: None,
                    },
                ),
                ..p
            },
        ),
    )
}

/// The state that `consume` leaves behind where it succeeds in the state `m`.
pub open spec fn after_consume(
    m: ManagerView,
    room_id: ObjectId,
    connection_id: Seq<char>,
    consumer: Consumer,
) -> ManagerView {
    let p = m.room(room_id).participant(connection_id);
    m.after_ids(1).put_room(
        m.room(room_id).put(ParticipantView { consumers: p.consumers.push(consumer), ..p }),
    )
}

/// The state that `close_producer` leaves behind where the connection sent the producer.
pub open spec fn after_close_producer(
    m: ManagerView,
    room_id: ObjectId,
    connection_id: Seq<char>,
    producer_id: u64,
) -> ManagerView {
    let p = m.room(room_id).participant(connection_id);
    m.put_room(
        m.room(room_id).put(
            ParticipantView { producers: p.producers.filter(not_producer(producer_id)), ..p },
        ),
    )
}

/// No connection is among its own peers: what is sent to the other
/// connections of a room never goes back to the connection it comes from,
/// however many connections the same user holds.
pub proof fn lemma_others_exclude_self(room: RoomView, connection_id: Seq<char>)
    ensures
        !room.other_connections(connection_id).contains(connection_id),
{
    let kept = room.participants.filter(not_on(connection_id));
    let others = room.other_connections(connection_id);
    if others.contains(connection_id) {
        let i = choose|i: int| 0 <= i < others.len() && others[i] == connection_id;
        room.participants.lemma_filter_pred(not_on(connection_id), i);
        assert(not_on(connection_id)(kept[i]));
    }
}

/// The manager after the room of `room_id` was created anew.
pub open spec fn with_fresh_room(m: ManagerView, room_id: ObjectId) -> ManagerView {
    ManagerView {
        rooms: m.rooms.push(RoomView { room_id, participants: Seq::empty() }),
        ..m
    }
}

/// A call that is started again after it ended gets a fresh media room:
/// once the room was removed, creating it gives a room without
/// participants, whoever was in the room before.
pub proof fn lemma_restart_gives_fresh_room(m: ManagerView, room_id: ObjectId)
    requires
        m.wf(),
    ensures
        !m.without_room(room_id).has_room(room_id),
        with_fresh_room(m.without_room(room_id), room_id).has_room(room_id),
        with_fresh_room(m.without_room(room_id), room_id).room(room_id).participants.len() == 0,
{
    let keep = not_room(room_id);
    let rest = m.without_room(room_id);
    assert(!rest.has_room(room_id)) by {
        if rest.has_room(room_id) {
            let i = choose|i: int|
                0 <= i < rest.rooms.len() && (#[trigger] rest.rooms[i]).room_id == room_id;
            m.rooms.lemma_filter_pred(keep, i);
            assert(keep(rest.rooms[i]));
        }
    }
    let after = with_fresh_room(rest, room_id);
    let last = after.rooms.len() - 1;
    assert(after.rooms[last].room_id == room_id);
    let k = choose|k: int| 0 <= k < after.rooms.len() && (#[trigger] after.rooms[k]).room_id == room_id;
    if k < last {
        assert(rest.rooms[k].room_id == room_id);
    }
}

/// The predicate that holds of every participant but those of `user`.
pub open spec fn not_of(user: ObjectId) -> spec_fn(ParticipantView) -> bool {
    |p: ParticipantView| p.user_id != user
}

/// The predicate that holds of the participants of `user`.
pub open spec fn is_of(user: ObjectId) -> spec_fn(ParticipantView) -> bool {
    |p: ParticipantView| p.user_id == user
}

impl RoomView {
    /// The room without the participants of `user`, on whatever connection.
    pub open spec fn without_user(self, user: ObjectId) -> RoomView {
        RoomView { participants: self.participants.filter(not_of(user)), ..self }
    }
}

/// The manager after every connection of `user` left the room.
pub open spec fn user_left(m: ManagerView, room_id: ObjectId, user: ObjectId) -> ManagerView {
    if m.has_room(room_id) {
        m.put_room(m.room(room_id).without_user(user))
    } else {
        m
    }
}

/// A codec that the router of a media room offers.
#[derive(Clone, Copy, Debug, PartialEq, Eq)]
pub struct RouterCodec {
    pub kind: MediaKind,
    pub mime_type: &'static str,
    pub clock_rate: u32,
    /// The number of audio channels; zero for video.
    pub channels: u8,
}

/// The codecs of every router: Opus for audio and VP8 for video.
pub fn router_codecs() -> (codecs: Vec<RouterCodec>)
    ensures
        codecs@.len() == 2,
        codecs@[0].kind == MediaKind::Audio && codecs@[0].mime_type@ == "audio/opus"@
            && codecs@[0].clock_rate == 48000 && codecs@[0].channels == 2,
        codecs@[1].kind == MediaKind::Video && codecs@[1].mime_type@ == "video/VP8"@
            && codecs@[1].clock_rate == 90000 && codecs@[1].channels == 0,
{
    let mut codecs: Vec<RouterCodec> = Vec::new();
    codecs.push(
        RouterCodec {
            kind: MediaKind::Audio,
            mime_type: "audio/opus",
            clock_rate: 48000,
            channels: 2,
        },
    );
    codecs.push(
        RouterCodec { kind: MediaKind::Video, mime_type: "video/VP8", clock_rate: 90000, channels: 0 },
    );
    codecs
}

/// An RTP tap queues this much audio before it drops packets, in milliseconds.
pub const RTP_TAP_WINDOW_MS: u64 = 200;

/// How many packets the queue of an RTP tap holds, for packets of
/// `packet_ms` milliseconds each: as many as fill the window, and one at
/// least.
pub fn rtp_tap_capacity(packet_ms: u64) -> (capacity: u64)
    ensures
        capacity == if packet_ms == 0 || packet_ms > RTP_TAP_WINDOW_MS {
            1
        } else {
            RTP_TAP_WINDOW_MS / packet_ms
        },
{
    if packet_ms == 0 || packet_ms > RTP_TAP_WINDOW_MS {
        1
    } else {
        RTP_TAP_WINDOW_MS / packet_ms
    }
}

} // verus!
