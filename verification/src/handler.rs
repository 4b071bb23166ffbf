use crate::dispatcher::{recipients_except, users_except};
use crate::engine::{
    worker_key_text, EngineView, StartedWorker, StoppedWorker, TranscriptionEngine,
};
use crate::events::{
    connection_targets, has_udp_and_tcp, serves_udp_and_tcp, to_connection_targets,
    to_user_targets, user_targets, Delivery, DeliveryView, EventView, OutboundEvent, Target,
    TargetView, TransportOptions,
};
use crate::ids::{hex_text, ObjectId};
use crate::media::{
    consume_outcome, join_result, produce_outcome, sends_producer, visible_producers, Consumer,
    ManagerView, MediaError, MediaKind, Participant, ProducerInfo, ProducerInfoView, RoomManager,
    TransportPair,
};
use crate::seqs::views;
use crate::storage::WsStorage;
use crate::tables::lists_keys;
use crate::text::{decimal, push_decimal, push_text};
use crate::transcript::TranscriptEvent;
use crate::text::opt_text;
use crate::turn::{force_relay, ice_servers, ice_servers_view, TurnSettings};
use vstd::prelude::*;

verus! {

/// How a refusal of the room manager reads in a `media:error`.
pub open spec fn error_text(e: MediaError) -> Seq<char> {
    match e {
        MediaError::RoomMissing => "Room does not exist"@,
        MediaError::TransportMissing => "Transport missing"@,
        MediaError::TransportNotConnected => "Transport not connected"@,
        MediaError::ProducerMissing => "Producer not found"@,
        MediaError::Incompatible => "Incompatible capabilities"@,
        MediaError::Exhausted => "Out of identifiers"@,
    }
}

/// How a refusal of the room manager reads in a `media:error`.
pub fn describe_error(e: MediaError) -> (text: &'static str)
    ensures
        text@ == error_text(e),
{
    match e {
        MediaError::RoomMissing => "Room does not exist",
        MediaError::TransportMissing => "Transport missing",
        MediaError::TransportNotConnected => "Transport not connected",
        MediaError::ProducerMissing => "Producer not found",
        MediaError::Incompatible => "Incompatible capabilities",
        MediaError::Exhausted => "Out of identifiers",
    }
}

/// An event for one connection.
pub open spec fn for_connection(connection_id: Seq<char>, event: EventView) -> DeliveryView {
    DeliveryView { targets: seq![TargetView::Connection(connection_id)], event }
}

/// An event for several connections.
pub open spec fn for_connections(connections: Seq<Seq<char>>, event: EventView) -> DeliveryView {
    DeliveryView { targets: connection_targets(connections), event }
}

/// An event for all connections of one user.
pub open spec fn for_user(user: ObjectId, event: EventView) -> DeliveryView {
    DeliveryView { targets: seq![TargetView::User(user)], event }
}

/// An event for all connections of several users.
pub open spec fn for_users(users: Seq<ObjectId>, event: EventView) -> DeliveryView {
    DeliveryView { targets: user_targets(users), event }
}

/// A `media:error` for the user who sent the failing request.
pub open spec fn media_error_for(user: ObjectId, message: Seq<char>) -> DeliveryView {
    for_user(user, EventView::MediaError { message })
}

fn to_connection(connection_id: &str, event: OutboundEvent) -> (d: Delivery)
    ensures
        d@ == for_connection(connection_id@, event@),
{
    let mut targets: Vec<Target> = Vec::new();
    targets.push(Target::Connection(connection_id.to_owned()));
    let d = Delivery { targets, event };
    proof {
        assert(d@.targets =~= seq![TargetView::Connection(connection_id@)]);
    }
    d
}

fn to_connections(connections: Vec<String>, event: OutboundEvent) -> (d: Delivery)
    ensures
        d@ == for_connections(views(connections@), event@),
{
    Delivery { targets: to_connection_targets(connections), event }
}

fn to_user(user: ObjectId, event: OutboundEvent) -> (d: Delivery)
    ensures
        d@ == for_user(user, event@),
{
    let mut targets: Vec<Target> = Vec::new();
    targets.push(Target::User(user));
    let d = Delivery { targets, event };
    proof {
        assert(d@.targets =~= seq![TargetView::User(user)]);
    }
    d
}

/// The first message on a new connection.
pub fn greeting(user_id: ObjectId) -> (event: OutboundEvent)
    ensures
        event@ == (EventView::Connected { user_id }),
{
    OutboundEvent::Connected { user_id }
}

/// A `media:error` for the user who sent a failing request.
pub fn send_media_error(user_id: ObjectId, message: &str) -> (d: Delivery)
    ensures
        d@ == media_error_for(user_id, message@),
{
    to_user(user_id, OutboundEvent::MediaError { message: message.to_owned() })
}

/// A `media:error` whose message is `prefix` followed by `detail`.
fn prefixed_error(user_id: ObjectId, prefix: &str, detail: &str) -> (d: Delivery)
    ensures
        d@ == media_error_for(user_id, prefix@ + detail@),
{
    let mut message = prefix.to_owned();
    push_text(&mut message, detail);
    to_user(user_id, OutboundEvent::MediaError { message })
}

/// The answer to `ping`: a `pong` to all connections of the user.
pub fn handle_ping(user_id: ObjectId) -> (deliveries: Vec<Delivery>)
    ensures
        views(deliveries@) == seq![for_user(user_id, EventView::Pong)],
{
    let mut deliveries: Vec<Delivery> = Vec::new();
    deliveries.push(to_user(user_id, OutboundEvent::Pong));
    proof {
        assert(views(deliveries@) =~= seq![for_user(user_id, EventView::Pong)]);
    }
    deliveries
}

/// A typing notice goes to every member of the room but the sender.
pub fn handle_typing(start: bool, room_text: &str, user_id: ObjectId, members: &Vec<ObjectId>) -> (deliveries:
    Vec<Delivery>)
    ensures
        views(deliveries@) == seq![
            for_users(
                users_except(members@, user_id),
                EventView::Typing { start, room_id: room_text@, user_id },
            ),
        ],
        !users_except(members@, user_id).contains(user_id),
{
    let recipients = recipients_except(members, &user_id);
    let event = OutboundEvent::Typing { start, room_id: room_text.to_owned(), user_id };
    let d = Delivery { targets: to_user_targets(&recipients), event };
    let ghost view = d@;
    let mut deliveries: Vec<Delivery> = Vec::new();
    deliveries.push(d);
    proof {
        assert(views(deliveries@) =~= seq![view]);
    }
    deliveries
}

/// `targets` names each connection of `connections` once, as a
/// connection, and nothing else.
pub open spec fn targets_each_once(targets: Seq<TargetView>, connections: Set<Seq<char>>) -> bool {
    exists|listed: Seq<Seq<char>>| #[trigger]
        lists_keys(listed, connections) && targets == connection_targets(listed)
}

/// What it means for one connection that `targets` names each connection
/// of `connections` once: a connection of the set is named by a target, a
/// connection outside it by none; no two targets are the same; and every
/// target is a connection, none a user.
pub proof fn lemma_targets_each_once(
    targets: Seq<TargetView>,
    connections: Set<Seq<char>>,
    connection_id: Seq<char>,
)
    requires
        targets_each_once(targets, connections),
    ensures
        connections.contains(connection_id) <==> targets.contains(
            TargetView::Connection(connection_id),
        ),
        forall|i: int, j: int| 0 <= i < j < targets.len() ==> targets[i] != targets[j],
        forall|i: int| 0 <= i < targets.len() ==> (#[trigger] targets[i]) is Connection,
{
    let listed = choose|listed: Seq<Seq<char>>| #[trigger]
        lists_keys(listed, connections) && targets == connection_targets(listed);
    if connections.contains(connection_id) {
        assert(listed.contains(connection_id));
        let i = choose|i: int| 0 <= i < listed.len() && listed[i] == connection_id;
        assert(targets[i] == TargetView::Connection(connection_id));
    }
    if targets.contains(TargetView::Connection(connection_id)) {
        let i = choose|i: int|
            0 <= i < targets.len() && targets[i] == TargetView::Connection(connection_id);
        assert(listed[i] == connection_id);
        assert(listed.contains(connection_id));
    }
    assert forall|i: int, j: int| 0 <= i < j < targets.len() implies targets[i] != targets[j] by {
        assert(listed[i] != listed[j]);
    }
}

/// A presence update goes to every open connection but the one it came
/// from: once to each, the sender's other connections among them, and
/// never back to its origin.
pub fn handle_presence(
    storage: &WsStorage,
    user_id: ObjectId,
    connection_id: &str,
    presence: &str,
) -> (deliveries: Vec<Delivery>)
    ensures
        deliveries@.len() == 1,
        deliveries@[0]@.event == (EventView::PresenceUpdate { user_id, presence: presence@ }),
        targets_each_once(deliveries@[0]@.targets, storage@.sinks.dom().remove(connection_id@)),
        !deliveries@[0]@.targets.contains(TargetView::Connection(connection_id@)),
{
    let others = storage.connections_except(connection_id);
    let ghost listed = views(others@);
    let event = OutboundEvent::PresenceUpdate { user_id, presence: presence.to_owned() };
    let d = to_connections(others, event);
    proof {
        assert(lists_keys(listed, storage@.sinks.dom().remove(connection_id@)));
        let targets = d@.targets;
        if targets.contains(TargetView::Connection(connection_id@)) {
            let i = choose|i: int|
                0 <= i < targets.len() && targets[i] == TargetView::Connection(connection_id@);
            assert(listed[i] == connection_id@);
            assert(listed.contains(connection_id@));
        }
    }
    let mut deliveries: Vec<Delivery> = Vec::new();
    deliveries.push(d);
    deliveries
}

/// The announcement of a producer to other participants.
pub open spec fn new_producer_event(p: ProducerInfoView) -> EventView {
    EventView::NewProducer {
        producer_id: p.producer_id,
        user_id: p.user_id,
        connection_id: p.connection_id,
        kind: p.kind,
        source: p.source,
    }
}

/// The announcements of `producers` to one connection, one message each.
pub open spec fn producer_announcements(
    connection_id: Seq<char>,
    producers: Seq<ProducerInfoView>,
) -> Seq<DeliveryView> {
    Seq::new(
        producers.len(),
        |i: int| for_connection(connection_id, new_producer_event(producers[i])),
    )
}

/// What the first half of joining a call answers in the state `m`: the
/// transports to set up, or the error to send.
pub open spec fn begin_join_spec(
    m: ManagerView,
    user_id: ObjectId,
    connection_id: Seq<char>,
    room_id: ObjectId,
) -> Result<TransportPair, DeliveryView> {
    if !m.has_room(room_id) {
        Err(media_error_for(user_id, "Room does not exist"@))
    } else {
        match join_result(m, room_id, connection_id) {
            Ok(pair) => Ok(pair),
            Err(e) => Err(
                media_error_for(user_id, "Failed to create transports: "@ + error_text(e)),
            ),
        }
    }
}

/// The first half of `media:join`: the room must exist; the connection
/// becomes a participant with a fresh pair of transports, which the caller
/// sets up in the media engine.
pub fn begin_media_join(
    rooms: &mut RoomManager,
    user_id: ObjectId,
    connection_id: &str,
    room_id: &ObjectId,
) -> (begun: Result<TransportPair, Delivery>)
    requires
        old(rooms)@.wf(),
    ensures
        final(rooms)@.wf(),
        match (begun, begin_join_spec(old(rooms)@, user_id, connection_id@, *room_id)) {
            (Ok(pair), Ok(expected)) => pair == expected && final(rooms)@
                == crate::media::after_join(old(rooms)@, *room_id, user_id, connection_id@),
            (Err(d), Err(expected)) => d@ == expected && final(rooms)@ == old(rooms)@,
            _ => false,
        },
{
    if !rooms.has_room(room_id) {
        return Err(send_media_error(user_id, "Room does not exist"));
    }
    match rooms.create_transports(room_id, user_id, connection_id) {
        Ok(pair) => Ok(pair),
        Err(e) => Err(prefixed_error(user_id, "Failed to create transports: ", describe_error(e))),
    }
}

/// The second half of joining, where the media engine could not set the
/// transports up: the connection stops being a participant and the user is
/// told why.
pub fn fail_media_join(
    rooms: &mut RoomManager,
    user_id: ObjectId,
    connection_id: &str,
    room_id: &ObjectId,
    reason: &str,
) -> (d: Delivery)
    requires
        old(rooms)@.wf(),
    ensures
        final(rooms)@.wf(),
        d@ == media_error_for(user_id, "Failed to create transports: "@ + reason@),
        final(rooms)@ == left_room(old(rooms)@, *room_id, connection_id@),
{
    let _ = rooms.close_participant(room_id, connection_id);
    prefixed_error(user_id, "Failed to create transports: ", reason)
}

/// The manager after the connection left the room; unchanged where it was not in it.
pub open spec fn left_room(m: ManagerView, room_id: ObjectId, connection_id: Seq<char>)
    -> ManagerView {
    if m.has_room(room_id) && m.room(room_id).has_connection(connection_id) {
        m.put_room(m.room(room_id).without(connection_id))
    } else {
        m
    }
}

/// The producers that the connection is told of in the room.
pub open spec fn visible_in(m: ManagerView, room_id: ObjectId, connection_id: Seq<char>) -> Seq<
    ProducerInfoView,
> {
    if m.has_room(room_id) {
        visible_producers(m.room(room_id).participants, connection_id)
    } else {
        Seq::empty()
    }
}

/// The connections of the room other than `connection_id`.
pub open spec fn others_in(m: ManagerView, room_id: ObjectId, connection_id: Seq<char>) -> Seq<
    Seq<char>,
> {
    if m.has_room(room_id) {
        m.room(room_id).other_connections(connection_id)
    } else {
        Seq::empty()
    }
}

/// What a joining connection is sent once its transports are set up: the
/// router's capabilities where there are any, the transports with the ICE
/// servers, and one announcement for each producer of the others.
pub open spec fn joined_spec(
    capabilities: Option<Seq<char>>,
    created: EventView,
    connection_id: Seq<char>,
    producers: Seq<ProducerInfoView>,
) -> Seq<DeliveryView> {
    let head = match capabilities {
        Some(c) => seq![
            for_connection(connection_id, EventView::RouterCapabilities { rtp_capabilities: c }),
        ],
        None => Seq::empty(),
    };
    head + seq![for_connection(connection_id, created)] + producer_announcements(
        connection_id,
        producers,
    )
}

/// What the second half of joining decided.
#[derive(Debug)]
pub struct JoinOutcome {
    /// Whether the connection is a participant now. Where it is not, the
    /// transports are to be closed in the media engine.
    pub joined: bool,
    pub deliveries: Vec<Delivery>,
}

/// The second half of `media:join`, once the media engine has set the
/// transports up. Each transport must offer a UDP candidate and a passive
/// TCP candidate; where one does not, the join fails and the connection
/// stops being a participant. Else the connection is sent the router's
/// capabilities, the transports with the ICE servers, and the producers of
/// the others.
pub fn finish_media_join(
    rooms: &mut RoomManager,
    turn: &TurnSettings,
    now_secs: u64,
    user_id: ObjectId,
    connection_id: &str,
    room_id: &ObjectId,
    capabilities: Option<String>,
    send_transport: TransportOptions,
    recv_transport: TransportOptions,
) -> (outcome: JoinOutcome)
    requires
        old(rooms)@.wf(),
    ensures
        final(rooms)@.wf(),
        outcome.joined == (serves_udp_and_tcp(send_transport@.ice_candidates)
            && serves_udp_and_tcp(recv_transport@.ice_candidates)),
        !outcome.joined ==> final(rooms)@ == left_room(old(rooms)@, *room_id, connection_id@)
            && views(outcome.deliveries@) == seq![
            media_error_for(
                user_id,
                "Failed to create transports: "@ + "ICE candidates incomplete"@,
            ),
        ],
        outcome.joined ==> final(rooms)@ == old(rooms)@ && views(outcome.deliveries@)
            == joined_spec(
            opt_text(capabilities),
            EventView::TransportCreated {
                send_transport: send_transport@,
                recv_transport: recv_transport@,
                ice_servers: ice_servers_view(
                    opt_text(turn.url),
                    opt_text(turn.shared_secret),
                    opt_text(turn.username),
                    opt_text(turn.password),
                    now_secs,
                    user_id@,
                ),
                force_relay: turn.force_relay == Some(true),
            },
            connection_id@,
            visible_in(old(rooms)@, *room_id, connection_id@),
        ),
{
    let mut deliveries: Vec<Delivery> = Vec::new();
    if !(has_udp_and_tcp(&send_transport.ice_candidates) && has_udp_and_tcp(
        &recv_transport.ice_candidates,
    )) {
        let d = fail_media_join(
            rooms,
            user_id,
            connection_id,
            room_id,
            "ICE candidates incomplete",
        );
        let ghost view = d@;
        deliveries.push(d);
        proof {
            assert(views(deliveries@) =~= seq![view]);
        }
        return JoinOutcome { joined: false, deliveries };
    }
    match capabilities {
        Some(c) => {
            let d = to_connection(
                connection_id,
                OutboundEvent::RouterCapabilities { rtp_capabilities: c },
            );
            let ghost view = d@;
            deliveries.push(d);
            proof {
                assert(views(deliveries@) =~= seq![view]);
            }
        },
        None => {
            proof {
                assert(views(deliveries@) =~= Seq::<DeliveryView>::empty());
            }
        },
    }
    let ghost head = views(deliveries@);
    let created = OutboundEvent::TransportCreated {
        send_transport,
        recv_transport,
        ice_servers: ice_servers(turn, now_secs, &user_id),
        force_relay: force_relay(turn),
    };
    let ghost created_view = created@;
    let d = to_connection(connection_id, created);
    let ghost view = d@;
    deliveries.push(d);
    proof {
        assert(views(deliveries@) =~= head + seq![view]);
    }
    let producers = rooms.producers_visible_to(room_id, connection_id);
    let ghost infos = views(producers@);
    let ghost base = views(deliveries@);
    let mut i: usize = 0;
    proof {
        assert(base + producer_announcements(connection_id@, infos).take(0) =~= base);
    }
    while i < producers.len()
        invariant
            i <= producers.len(),
            infos == views(producers@),
            views(deliveries@) == base + producer_announcements(connection_id@, infos).take(
                i as int,
            ),
        decreases producers.len() - i,
    {
        let p = &producers[i];
        let ghost so_far = views(deliveries@);
        let event = OutboundEvent::NewProducer {
            producer_id: p.producer_id,
            user_id: p.user_id,
            connection_id: p.connection_id.clone(),
            kind: p.kind,
            source: p.source.clone(),
        };
        let d = to_connection(connection_id, event);
        let ghost view = d@;
        deliveries.push(d);
        proof {
            let all = producer_announcements(connection_id@, infos);
            assert(view == all[i as int]);
            assert(views(deliveries@) =~= so_far.push(view));
            assert(base + all.take(i as int + 1) =~= (base + all.take(i as int)).push(
                all[i as int],
            ));
        }
        i += 1;
    }
    proof {
        let all = producer_announcements(connection_id@, infos);
        assert(all.take(all.len() as int) =~= all);
    }
    JoinOutcome { joined: true, deliveries }
}


/// The view of an engine that may be absent.
pub open spec fn engine_view(engine: Option<TranscriptionEngine>) -> Option<EngineView> {
    match engine {
        Some(e) => Some(e@),
        None => None,
    }
}

/// Whether there is an engine and transcription is enabled in it for the room.
pub open spec fn transcribes(engine: Option<EngineView>, room_id: ObjectId) -> bool {
    match engine {
        Some(e) => e.room_models.dom().contains(room_id@ as u128),
        None => false,
    }
}

/// What the producing connection and its peers are sent: the result to the
/// connection, and the announcement to the others where there are any.
pub open spec fn produced_spec(
    connection_id: Seq<char>,
    user_id: ObjectId,
    producer_id: u64,
    kind: MediaKind,
    source: Seq<char>,
    others: Seq<Seq<char>>,
) -> Seq<DeliveryView> {
    let result = seq![for_connection(connection_id, EventView::ProduceResult { id: producer_id })];
    if others.len() > 0 {
        result + seq![
            for_connections(
                others,
                EventView::NewProducer { producer_id, user_id, connection_id, kind, source },
            ),
        ]
    } else {
        result
    }
}

/// What `media:produce` decided.
#[derive(Debug)]
pub struct ProduceOutcome {
    /// The new producer, where the request succeeded.
    pub producer_id: Option<u64>,
    /// Whether a transcription pipeline is to be started for the producer.
    pub transcribe: bool,
    pub deliveries: Vec<Delivery>,
}

/// `media:produce`: registers the producer. The connection is sent the
/// producer's identifier and every other connection of the room the
/// announcement; a refusal is sent to the user as a `media:error`. An audio
/// producer in a room with transcription enabled is to be transcribed.
pub fn handle_media_produce(
    rooms: &mut RoomManager,
    engine: &Option<TranscriptionEngine>,
    user_id: ObjectId,
    connection_id: &str,
    room_id: &ObjectId,
    kind: MediaKind,
    source: String,
) -> (outcome: ProduceOutcome)
    requires
        old(rooms)@.wf(),
    ensures
        final(rooms)@.wf(),
        match produce_outcome(old(rooms)@, *room_id, connection_id@) {
            Ok(id) => {
                &&& outcome.producer_id == Some(id)
                &&& outcome.transcribe == (kind == MediaKind::Audio && transcribes(
                    engine_view(*engine),
                    *room_id,
                ))
                &&& views(outcome.deliveries@) == produced_spec(
                    connection_id@,
                    user_id,
                    id,
                    kind,
                    source@,
                    others_in(old(rooms)@, *room_id, connection_id@),
                )
                &&& final(rooms)@ == crate::media::after_produce(
                    old(rooms)@,
                    *room_id,
                    connection_id@,
                    kind,
                    Some(source@),
                )
            },
            Err(e) => {
                &&& outcome.producer_id is None
                &&& !outcome.transcribe
                &&& views(outcome.deliveries@) == seq![
                    media_error_for(user_id, "produce failed: "@ + error_text(e)),
                ]
                &&& final(rooms)@ == old(rooms)@
            },
        },
        !others_in(old(rooms)@, *room_id, connection_id@).contains(connection_id@),
{
    proof {
        if old(rooms)@.has_room(*room_id) {
            crate::media::lemma_others_exclude_self(old(rooms)@.room(*room_id), connection_id@);
        }
    }
    let mut deliveries: Vec<Delivery> = Vec::new();
    let others = rooms.get_other_connection_ids(room_id, connection_id);
    match rooms.produce(room_id, connection_id, kind, Some(source.clone())) {
        Err(e) => {
            let d = prefixed_error(user_id, "produce failed: ", describe_error(e));
            let ghost view = d@;
            deliveries.push(d);
            proof {
                assert(views(deliveries@) =~= seq![view]);
            }
            ProduceOutcome { producer_id: None, transcribe: false, deliveries }
        },
        Ok(id) => {
            let d = to_connection(connection_id, OutboundEvent::ProduceResult { id });
            let ghost first = d@;
            deliveries.push(d);
            proof {
                assert(views(deliveries@) =~= seq![first]);
            }
            if others.len() > 0 {
                let event = OutboundEvent::NewProducer {
                    producer_id: id,
                    user_id,
                    connection_id: connection_id.to_owned(),
                    kind,
                    source,
                };
                let d = to_connections(others, event);
                let ghost second = d@;
                deliveries.push(d);
                proof {
                    assert(views(deliveries@) =~= seq![first] + seq![second]);
                }
            }
            let enabled = match engine {
                Some(e) => e.is_enabled(room_id),
                None => false,
            };
            let audio = match kind {
                MediaKind::Audio => true,
                MediaKind::Video => false,
            };
            ProduceOutcome { producer_id: Some(id), transcribe: audio && enabled, deliveries }
        },
    }
}

/// `media:consume`: registers the consumer and returns it, or returns the
/// `media:error` to send to the user.
pub fn handle_media_consume(
    rooms: &mut RoomManager,
    user_id: ObjectId,
    connection_id: &str,
    room_id: &ObjectId,
    producer_id: u64,
    compatible: bool,
) -> (consumed: Result<Consumer, Delivery>)
    requires
        old(rooms)@.wf(),
    ensures
        final(rooms)@.wf(),
        match (
            consumed,
            consume_outcome(old(rooms)@, *room_id, connection_id@, producer_id, compatible),
        ) {
            (Ok(consumer), Ok(expected)) => consumer == expected && final(rooms)@
                == crate::media::after_consume(old(rooms)@, *room_id, connection_id@, consumer),
            (Err(d), Err(e)) => d@ == media_error_for(
                user_id,
                "consume failed: "@ + error_text(e),
            ) && final(rooms)@ == old(rooms)@,
            _ => false,
        },
{
    match rooms.consume(room_id, connection_id, producer_id, compatible) {
        Ok(consumer) => Ok(consumer),
        Err(e) => Err(prefixed_error(user_id, "consume failed: ", describe_error(e))),
    }
}

/// The answer to a successful `media:consume`, with the consumer's RTP
/// parameters as the media engine gave them.
pub fn consumer_created(connection_id: &str, consumer: Consumer, rtp_parameters: String) -> (d:
    Delivery)
    ensures
        d@ == for_connection(
            connection_id@,
            EventView::ConsumerCreated {
                id: consumer.id,
                producer_id: consumer.producer_id,
                kind: consumer.kind,
                rtp_parameters: rtp_parameters@,
            },
        ),
{
    to_connection(
        connection_id,
        OutboundEvent::ConsumerCreated {
            id: consumer.id,
            producer_id: consumer.producer_id,
            kind: consumer.kind,
            rtp_parameters,
        },
    )
}

/// The text of a producer's identifier, as it stands in worker keys and on the wire.
pub fn producer_text(producer_id: u64) -> (text: String)
    ensures
        text@ == decimal(producer_id as nat),
{
    let mut text = String::new();
    push_decimal(&mut text, producer_id);
    text
}

/// An event for the other connections of a room, where there are any.
pub open spec fn to_peers(others: Seq<Seq<char>>, event: EventView) -> Seq<DeliveryView> {
    if others.len() > 0 {
        seq![for_connections(others, event)]
    } else {
        Seq::empty()
    }
}

fn peers_delivery(others: Vec<String>, event: OutboundEvent) -> (deliveries: Vec<Delivery>)
    ensures
        views(deliveries@) == to_peers(views(others@), event@),
{
    let mut deliveries: Vec<Delivery> = Vec::new();
    if others.len() > 0 {
        let d = to_connections(others, event);
        let ghost view = d@;
        deliveries.push(d);
        proof {
            assert(views(deliveries@) =~= seq![view]);
        }
    } else {
        proof {
            assert(views(deliveries@) =~= Seq::<DeliveryView>::empty());
        }
    }
    deliveries
}

/// What `media:producer_close` decided.
#[derive(Debug)]
pub struct CloseOutcome {
    /// Whether the connection had the producer and it is closed now.
    pub closed: bool,
    /// The producer's transcription worker, to be aborted.
    pub stopped_worker: Option<u64>,
    pub deliveries: Vec<Delivery>,
}

/// The engine after the worker under `key` was stopped.
pub open spec fn engine_without_worker(engine: Option<EngineView>, key: Seq<char>) -> Option<
    EngineView,
> {
    match engine {
        Some(e) => Some(EngineView { workers: e.workers.remove(key), ..e }),
        None => None,
    }
}

/// The handle of the worker under `key`, if there is an engine and it has one.
pub open spec fn worker_handle(engine: Option<EngineView>, key: Seq<char>) -> Option<u64> {
    match engine {
        Some(e) => if e.workers.dom().contains(key) {
            Some(e.workers[key])
        } else {
            None
        },
        None => None,
    }
}

/// `media:producer_close`: where the connection sends the producer, the
/// producer is closed with its tap, its transcription worker is stopped,
/// and the other connections of the room are told. Else nothing happens.
pub fn handle_media_producer_close(
    rooms: &mut RoomManager,
    engine: &mut Option<TranscriptionEngine>,
    user_id: ObjectId,
    connection_id: &str,
    room_id: &ObjectId,
    producer_id: u64,
) -> (outcome: CloseOutcome)
    requires
        old(rooms)@.wf(),
    ensures
        engine_ok(engine_view(*old(engine))) ==> engine_ok(engine_view(*final(engine))),
        final(rooms)@.wf(),
        outcome.closed == sends_producer(old(rooms)@, *room_id, connection_id@, producer_id),
        !outcome.closed ==> {
            &&& final(rooms)@ == old(rooms)@
            &&& engine_view(*final(engine)) == engine_view(*old(engine))
            &&& outcome.stopped_worker is None
            &&& outcome.deliveries@.len() == 0
        },
        outcome.closed ==> {
            let key = worker_key_text(room_id@, decimal(producer_id as nat));
            &&& final(rooms)@ == crate::media::after_close_producer(
                old(rooms)@,
                *room_id,
                connection_id@,
                producer_id,
            )
            &&& engine_view(*final(engine)) == engine_without_worker(
                engine_view(*old(engine)),
                key,
            )
            &&& outcome.stopped_worker == worker_handle(engine_view(*old(engine)), key)
            &&& views(outcome.deliveries@) == to_peers(
                others_in(old(rooms)@, *room_id, connection_id@),
                EventView::ProducerClosed { producer_id, user_id },
            )
        },
        !others_in(old(rooms)@, *room_id, connection_id@).contains(connection_id@),
{
    proof {
        if old(rooms)@.has_room(*room_id) {
            crate::media::lemma_others_exclude_self(old(rooms)@.room(*room_id), connection_id@);
        }
    }
    let others = rooms.get_other_connection_ids(room_id, connection_id);
    if !rooms.close_producer(room_id, connection_id, producer_id) {
        return CloseOutcome { closed: false, stopped_worker: None, deliveries: Vec::new() };
    }
    let text = producer_text(producer_id);
    let stopped_worker = match engine {
        Some(e) => e.stop_producer(room_id, text.as_str()),
        None => None,
    };
    let deliveries = peers_delivery(
        others,
        OutboundEvent::ProducerClosed { producer_id, user_id },
    );
    CloseOutcome { closed: true, stopped_worker, deliveries }
}

/// What leaving a call decided.
#[derive(Debug)]
pub struct LeaveOutcome {
    /// The participant record that was removed; what it holds is to be
    /// closed in the media engine.
    pub closed: Option<Participant>,
    pub deliveries: Vec<Delivery>,
}

/// The notice that a connection left a room's call, for its peers.
pub open spec fn peer_left_spec(
    others: Seq<Seq<char>>,
    user_id: ObjectId,
    connection_id: Seq<char>,
    room_id: ObjectId,
) -> Seq<DeliveryView> {
    to_peers(others, EventView::PeerLeft { user_id, connection_id, room_id })
}

/// `media:leave`: the connection stops being a participant of the room,
/// and every other connection of the room is told once. The leaving
/// connection itself is told nothing.
pub fn handle_media_leave(
    rooms: &mut RoomManager,
    user_id: ObjectId,
    connection_id: &str,
    room_id: &ObjectId,
) -> (outcome: LeaveOutcome)
    requires
        old(rooms)@.wf(),
    ensures
        final(rooms)@.wf(),
        final(rooms)@ == left_room(old(rooms)@, *room_id, connection_id@),
        outcome.closed is Some <==> old(rooms)@.has_room(*room_id) && old(rooms)@.room(
            *room_id,
        ).has_connection(connection_id@),
        outcome.closed is Some ==> outcome.closed.unwrap()@ == old(rooms)@.room(
            *room_id,
        ).participant(connection_id@),
        views(outcome.deliveries@) == peer_left_spec(
            others_in(old(rooms)@, *room_id, connection_id@),
            user_id,
            connection_id@,
            *room_id,
        ),
        !others_in(old(rooms)@, *room_id, connection_id@).contains(connection_id@),
{
    proof {
        if old(rooms)@.has_room(*room_id) {
            crate::media::lemma_others_exclude_self(old(rooms)@.room(*room_id), connection_id@);
        }
    }
    let others = rooms.get_other_connection_ids(room_id, connection_id);
    let closed = rooms.close_participant(room_id, connection_id);
    let deliveries = peers_delivery(
        others,
        OutboundEvent::PeerLeft {
            user_id,
            connection_id: connection_id.to_owned(),
            room_id: *room_id,
        },
    );
    LeaveOutcome { closed, deliveries }
}

/// What the cleanup after a closed connection decided.
#[derive(Debug)]
pub struct DisconnectOutcome {
    /// Whether the connection was registered.
    pub unregistered: bool,
    /// The playbacks that the connection had started and that still ran; to be aborted.
    pub stopped_playbacks: Vec<u64>,
    /// The participant record that was removed, if the connection was in a call.
    pub closed: Option<Participant>,
    pub deliveries: Vec<Delivery>,
}

/// The engine after the playbacks of a connection were stopped.
pub open spec fn engine_without_playbacks(engine: Option<EngineView>, connection_id: Seq<char>)
    -> Option<EngineView> {
    match engine {
        Some(e) => Some(
            EngineView {
                workers: crate::engine::stop_each(e.workers, e.playbacks_of(connection_id)).0,
                playbacks: e.playbacks.remove(connection_id),
                ..e
            },
        ),
        None => None,
    }
}

/// The handles of the playbacks that a connection had started and that
/// still ran, in the order in which they were started. None without an engine.
pub open spec fn playbacks_to_stop(engine: Option<EngineView>, connection_id: Seq<char>) -> Seq<
    u64,
> {
    match engine {
        Some(e) => crate::engine::stop_each(e.workers, e.playbacks_of(connection_id)).1,
        None => Seq::empty(),
    }
}

/// Whether the engine, where there is one, is well-formed.
pub open spec fn engine_ok(engine: Option<EngineView>) -> bool {
    match engine {
        Some(e) => e.wf(),
        None => true,
    }
}

/// The cleanup after a connection closed, in this order: the connection is
/// unregistered; the playbacks it started are stopped; and where it was in
/// a call, its peers are listed, it stops being a participant, and each peer
/// is told once that it left.
pub fn handle_disconnect(
    storage: &mut crate::storage::WsStorage,
    engine: &mut Option<TranscriptionEngine>,
    rooms: &mut RoomManager,
    user_id: ObjectId,
    connection_id: &str,
) -> (outcome: DisconnectOutcome)
    requires
        old(storage)@.wf(),
        old(rooms)@.wf(),
    ensures
        final(storage)@.wf(),
        final(rooms)@.wf(),
        outcome.unregistered == old(storage)@.connections_of(user_id).contains(connection_id@),
        final(storage)@ == (if outcome.unregistered {
            old(storage)@.without(user_id, connection_id@)
        } else {
            old(storage)@
        }),
        engine_view(*final(engine)) == engine_without_playbacks(
            engine_view(*old(engine)),
            connection_id@,
        ),
        engine_ok(engine_view(*old(engine))) ==> engine_ok(engine_view(*final(engine))),
        outcome.stopped_playbacks@ == playbacks_to_stop(
            engine_view(*old(engine)),
            connection_id@,
        ),
        match old(rooms)@.connection_room(connection_id@) {
            Some(room_id) => {
                &&& old(rooms)@.has_room(room_id)
                &&& old(rooms)@.room(room_id).has_connection(connection_id@)
                &&& outcome.closed is Some
                &&& outcome.closed.unwrap()@ == old(rooms)@.room(room_id).participant(
                    connection_id@,
                )
                &&& final(rooms)@ == left_room(old(rooms)@, room_id, connection_id@)
                &&& views(outcome.deliveries@) == peer_left_spec(
                    others_in(old(rooms)@, room_id, connection_id@),
                    user_id,
                    connection_id@,
                    room_id,
                )
                &&& !others_in(old(rooms)@, room_id, connection_id@).contains(connection_id@)
            },
            None => final(rooms)@ == old(rooms)@ && outcome.closed is None
                && outcome.deliveries@.len() == 0,
        },
{
    let unregistered = storage.remove(&user_id, connection_id);
    let stopped_playbacks = match engine {
        Some(e) => e.stop_connection_playbacks(connection_id),
        None => Vec::new(),
    };
    proof {
        crate::media::lemma_connection_room_is_joined(rooms@, connection_id@);
    }
    match rooms.get_connection_room(connection_id) {
        Some(room_id) => {
            let left = handle_media_leave(rooms, user_id, connection_id, &room_id);
            DisconnectOutcome {
                unregistered,
                stopped_playbacks,
                closed: left.closed,
                deliveries: left.deliveries,
            }
        },
        None => DisconnectOutcome {
            unregistered,
            stopped_playbacks,
            closed: None,
            deliveries: Vec::new(),
        },
    }
}


/// The predicate that holds of audio producers.
pub open spec fn is_audio() -> spec_fn(ProducerInfoView) -> bool {
    |p: ProducerInfoView| p.kind == MediaKind::Audio
}

/// The audio producers among `producers`, in order.
pub fn audio_producers(producers: &Vec<ProducerInfo>) -> (audio: Vec<ProducerInfo>)
    ensures
        views(audio@) == views(producers@).filter(is_audio()),
{
    let ghost all = views(producers@);
    let ghost keep = is_audio();
    let mut audio: Vec<ProducerInfo> = Vec::new();
    let mut i: usize = 0;
    proof {
        reveal(Seq::filter);
        assert(all.take(0).filter(keep) =~= Seq::<ProducerInfoView>::empty());
        assert(views(audio@) =~= Seq::<ProducerInfoView>::empty());
    }
    while i < producers.len()
        invariant
            i <= producers.len(),
            all == views(producers@),
            keep == is_audio(),
            views(audio@) == all.take(i as int).filter(keep),
        decreases producers.len() - i,
    {
        let p = &producers[i];
        let ghost before = views(audio@);
        proof {
            crate::seqs::lemma_filter_take_step(all, keep, i as int);
            assert(all[i as int] == p@);
        }
        match p.kind {
            MediaKind::Audio => {
                let copy = ProducerInfo {
                    user_id: p.user_id,
                    connection_id: p.connection_id.clone(),
                    producer_id: p.producer_id,
                    kind: p.kind,
                    source: p.source.clone(),
                };
                audio.push(copy);
                proof {
                    assert(views(audio@) =~= before.push(all[i as int]));
                }
            },
            MediaKind::Video => {},
        }
        i += 1;
    }
    proof {
        assert(all.take(all.len() as int) =~= all);
    }
    audio
}

/// An event for a connection and for its peers: the connection first.
pub open spec fn for_connection_and_peers(
    connection_id: Seq<char>,
    others: Seq<Seq<char>>,
    event: EventView,
) -> DeliveryView {
    DeliveryView {
        targets: seq![TargetView::Connection(connection_id)] + connection_targets(others),
        event,
    }
}

fn to_connection_and_peers(connection_id: &str, others: Vec<String>, event: OutboundEvent) -> (d:
    Delivery)
    ensures
        d@ == for_connection_and_peers(connection_id@, views(others@), event@),
{
    let mut targets: Vec<Target> = Vec::new();
    targets.push(Target::Connection(connection_id.to_owned()));
    let ghost head = views(targets@);
    let mut rest = to_connection_targets(others);
    let ghost tail = views(rest@);
    targets.append(&mut rest);
    let d = Delivery { targets, event };
    proof {
        assert(head =~= seq![TargetView::Connection(connection_id@)]);
        assert(d@.targets =~= head + tail);
    }
    d
}

/// What `media:transcript_toggle` decided.
#[derive(Debug)]
pub struct ToggleOutcome {
    /// The workers that were stopped; their tasks are to be aborted.
    pub stopped: Vec<StoppedWorker>,
    /// The audio producers for which a pipeline is to be started.
    pub start_for: Vec<ProducerInfo>,
    /// Whether the caller is to spawn the room's broadcast task.
    pub spawn_broadcast: bool,
    pub deliveries: Vec<Delivery>,
}

/// The engine after transcription was switched on for a room with `model`,
/// or with the default recogniser where none is named, and the room's
/// broadcast was claimed.
pub open spec fn engine_enabled(e: EngineView, room_id: ObjectId, model: Option<Seq<char>>)
    -> EngineView {
    EngineView {
        room_models: e.room_models.insert(
            room_id@ as u128,
            match model {
                Some(m) => m,
                None => e.default_backend,
            },
        ),
        broadcast_active: e.broadcast_active.insert(room_id@ as u128),
        ..e
    }
}

/// The engine after transcription was switched off for a room.
pub open spec fn engine_disabled(e: EngineView, room_id: ObjectId) -> EngineView {
    EngineView {
        room_models: e.room_models.remove(room_id@ as u128),
        workers: e.workers_outside(room_id),
        broadcast_active: e.broadcast_active.remove(room_id@ as u128),
        ..e
    }
}

/// `media:transcript_toggle`. With an engine, switching on selects the
/// recogniser for the room, asks for a pipeline for every audio producer
/// of the room and claims the room's broadcast; switching off stops the
/// room's workers. With or without an engine, the toggling connection and
/// its peers are told the new status.
pub fn handle_transcript_toggle(
    rooms: &RoomManager,
    engine: &mut Option<TranscriptionEngine>,
    connection_id: &str,
    room_id: &ObjectId,
    room_text: &str,
    enabled: bool,
    model: Option<String>,
) -> (outcome: ToggleOutcome)
    requires
        rooms@.wf(),
    ensures
        engine_ok(engine_view(*old(engine))) ==> engine_ok(engine_view(*final(engine))),
        views(outcome.deliveries@) == seq![
            for_connection_and_peers(
                connection_id@,
                others_in(rooms@, *room_id, connection_id@),
                EventView::TranscriptStatus {
                    room_id: room_text@,
                    enabled,
                    model: crate::text::opt_text(model),
                },
            ),
        ],
        match engine_view(*old(engine)) {
            None => {
                &&& engine_view(*final(engine)) is None
                &&& outcome.stopped@.len() == 0
                &&& outcome.start_for@.len() == 0
                &&& !outcome.spawn_broadcast
            },
            Some(e) => if enabled {
                &&& engine_view(*final(engine)) == Some(
                    engine_enabled(e, *room_id, crate::text::opt_text(model)),
                )
                &&& outcome.stopped@.len() == 0
                &&& views(outcome.start_for@) == visible_in(rooms@, *room_id, ""@).filter(
                    is_audio(),
                )
                &&& outcome.spawn_broadcast == !e.broadcast_active.contains(room_id@ as u128)
            } else {
                &&& engine_view(*final(engine)) == Some(engine_disabled(e, *room_id))
                &&& crate::engine::stops_room_workers(outcome.stopped@, e.workers, room_id@)
                &&& outcome.start_for@.len() == 0
                &&& !outcome.spawn_broadcast
            },
        },
{
    let mut stopped: Vec<StoppedWorker> = Vec::new();
    let mut start_for: Vec<ProducerInfo> = Vec::new();
    let mut spawn_broadcast = false;
    match engine {
        Some(e) => {
            if enabled {
                let model_name: String = match &model {
                    Some(m) => m.clone(),
                    None => e.default_backend_name().to_owned(),
                };
                e.enable_room(*room_id, model_name);
                let all = rooms.producers_visible_to(room_id, "");
                start_for = audio_producers(&all);
                spawn_broadcast = e.try_start_broadcast(*room_id);
            } else {
                stopped = e.disable_room(*room_id);
            }
        },
        None => {},
    }
    let others = rooms.get_other_connection_ids(room_id, connection_id);
    let event = OutboundEvent::TranscriptStatus { room_id: room_text.to_owned(), enabled, model };
    let d = to_connection_and_peers(connection_id, others, event);
    let ghost view = d@;
    let mut deliveries: Vec<Delivery> = Vec::new();
    deliveries.push(d);
    proof {
        assert(views(deliveries@) =~= seq![view]);
    }
    ToggleOutcome { stopped, start_for, spawn_broadcast, deliveries }
}

/// What starting a playback decided.
#[derive(Debug)]
pub struct PlayStart {
    /// The playback's identifier and the worker to spawn; `None` where no
    /// recogniser serves the room.
    pub playback: Option<(String, StartedWorker)>,
    /// Whether the caller is to spawn the room's broadcast task.
    pub spawn_broadcast: bool,
}

/// What a [`PlayStart`] holds, as mathematical values.
pub ghost struct PlayStartView {
    pub playback: Option<(Seq<char>, Seq<char>, u64)>,
    pub spawn_broadcast: bool,
}

impl View for PlayStart {
    type V = PlayStartView;

    open spec fn view(&self) -> PlayStartView {
        PlayStartView {
            playback: match self.playback {
                Some((id, worker)) => Some((id@, worker.backend@, worker.handle)),
                None => None,
            },
            spawn_broadcast: self.spawn_broadcast,
        }
    }
}

/// What playing a file into a room does to the engine, the playback's
/// identifier being made from `unique`: transcription is switched on for
/// the room with the default recogniser unless it is on; where a
/// recogniser serves the room, a worker is entered under the playback's
/// identifier and the playback is tracked for the connection; and the
/// room's broadcast is claimed.
pub open spec fn play_spec(
    e: EngineView,
    connection_id: Seq<char>,
    room_id: ObjectId,
    unique: Seq<char>,
) -> (EngineView, PlayStartView) {
    let room = room_id@ as u128;
    let e1 = if e.room_models.dom().contains(room) {
        e
    } else {
        EngineView { room_models: e.room_models.insert(room, e.default_backend), ..e }
    };
    let key = crate::engine::playback_key_text(room_id@, unique);
    let started = e1.backend_for(room_id) is Some && e1.next_handle < u64::MAX;
    let e2 = if started {
        EngineView {
            workers: e1.workers.insert(key, e1.next_handle),
            next_handle: (e1.next_handle + 1) as u64,
            playbacks: e1.playbacks.insert(
                connection_id,
                e1.playbacks_of(connection_id).push(key),
            ),
            ..e1
        }
    } else {
        e1
    };
    (
        EngineView { broadcast_active: e2.broadcast_active.insert(room), ..e2 },
        PlayStartView {
            playback: if started {
                Some((key, e1.backend_for(room_id).unwrap(), e1.next_handle))
            } else {
                None
            },
            spawn_broadcast: !e2.broadcast_active.contains(room),
        },
    )
}

/// Starts a file playback whose identifier is made from `unique`.
pub fn play_audio_with(
    engine: &mut TranscriptionEngine,
    connection_id: &str,
    room_id: &ObjectId,
    unique: &str,
) -> (start: PlayStart)
    ensures
        old(engine)@.wf() ==> final(engine)@.wf(),
        (final(engine)@, start@) == play_spec(old(engine)@, connection_id@, *room_id, unique@),
{
    if !engine.is_enabled(room_id) {
        let name = engine.default_backend_name().to_owned();
        engine.enable_room(*room_id, name);
    }
    let playback = engine.begin_file_playback(room_id, unique);
    match &playback {
        Some((id, _)) => {
            engine.track_playback(connection_id, id.as_str());
        },
        None => {},
    }
    let spawn_broadcast = engine.try_start_broadcast(*room_id);
    PlayStart { playback, spawn_broadcast }
}

/// `media:play_audio`, the engine's part: starts a file playback under a
/// fresh identifier. Whatever the identifier, what happens is what
/// [`play_audio_with`] states for it.
pub fn begin_play_audio(engine: &mut TranscriptionEngine, connection_id: &str, room_id: &ObjectId) -> (start:
    PlayStart)
    ensures
        old(engine)@.wf() ==> final(engine)@.wf(),
        exists|unique: Seq<char>|
            (final(engine)@, start@) == play_spec(
                old(engine)@,
                connection_id@,
                *room_id,
                unique,
            ),
{
    let unique = crate::random::fresh_uuid();
    play_audio_with(engine, connection_id, room_id, unique.as_str())
}

/// Where a file of the room's tenant is downloaded from.
pub open spec fn file_url_text(tenant: nat, file: nat) -> Seq<char> {
    "/api/tenant/"@ + hex_text(tenant, 24) + "/file/"@ + hex_text(file, 24) + "/download"@
}

/// Where an uploaded file lies on disk: under the upload directory, by its storage key.
pub open spec fn upload_path_text(upload_dir: Seq<char>, storage_key: Seq<char>) -> Seq<char> {
    upload_dir + seq!['/'] + storage_key
}

/// Where an uploaded file lies on disk.
pub fn upload_path(upload_dir: &str, storage_key: &str) -> (path: String)
    ensures
        path@ == upload_path_text(upload_dir@, storage_key@),
{
    let mut path = upload_dir.to_owned();
    path.push('/');
    push_text(&mut path, storage_key);
    path
}

/// The speaker's name where none is on record: the first eight digits of the user's identifier.
pub fn fallback_speaker_name(user_id: &ObjectId) -> (name: String)
    ensures
        name@ == hex_text(user_id@, 24).take(8),
{
    user_id.short_hex()
}

/// `media:play_audio`, the announcement: the playing connection and its
/// peers are told where to fetch the file and under which identifier its
/// transcription runs (empty where none runs).
pub fn audio_playback_started(
    rooms: &RoomManager,
    connection_id: &str,
    room_id: &ObjectId,
    room_text: &str,
    tenant_id: &ObjectId,
    file_id: &ObjectId,
    file_text: &str,
    filename: &str,
    playback_id: &str,
) -> (d: Delivery)
    requires
        rooms@.wf(),
    ensures
        d@ == for_connection_and_peers(
            connection_id@,
            others_in(rooms@, *room_id, connection_id@),
            EventView::AudioPlaybackStart {
                file_url: file_url_text(tenant_id@, file_id@),
                file_id: file_text@,
                filename: filename@,
                playback_id: playback_id@,
                room_id: room_text@,
            },
        ),
{
    let mut file_url = "/api/tenant/".to_owned();
    let tenant_hex = tenant_id.to_hex();
    push_text(&mut file_url, tenant_hex.as_str());
    push_text(&mut file_url, "/file/");
    let file_hex = file_id.to_hex();
    push_text(&mut file_url, file_hex.as_str());
    push_text(&mut file_url, "/download");
    let others = rooms.get_other_connection_ids(room_id, connection_id);
    to_connection_and_peers(
        connection_id,
        others,
        OutboundEvent::AudioPlaybackStart {
            file_url,
            file_id: file_text.to_owned(),
            filename: filename.to_owned(),
            playback_id: playback_id.to_owned(),
            room_id: room_text.to_owned(),
        },
    )
}

/// What `media:stop_audio` decided.
#[derive(Debug)]
pub struct StopOutcome {
    /// The playback's worker, to be aborted.
    pub stopped_worker: Option<u64>,
    pub delivery: Delivery,
}

/// `media:stop_audio`: the playback's worker is stopped, and the
/// connection and its peers are told.
pub fn handle_stop_audio(
    rooms: &RoomManager,
    engine: &mut Option<TranscriptionEngine>,
    connection_id: &str,
    room_id: &ObjectId,
    room_text: &str,
    playback_id: &str,
) -> (outcome: StopOutcome)
    requires
        rooms@.wf(),
    ensures
        engine_ok(engine_view(*old(engine))) ==> engine_ok(engine_view(*final(engine))),
        engine_view(*final(engine)) == engine_without_worker(
            engine_view(*old(engine)),
            playback_id@,
        ),
        outcome.stopped_worker == worker_handle(engine_view(*old(engine)), playback_id@),
        outcome.delivery@ == for_connection_and_peers(
            connection_id@,
            others_in(rooms@, *room_id, connection_id@),
            EventView::AudioPlaybackStop { playback_id: playback_id@, room_id: room_text@ },
        ),
{
    let stopped_worker = match engine {
        Some(e) => e.stop_pipeline(playback_id),
        None => None,
    };
    let others = rooms.get_other_connection_ids(room_id, connection_id);
    let delivery = to_connection_and_peers(
        connection_id,
        others,
        OutboundEvent::AudioPlaybackStop {
            playback_id: playback_id.to_owned(),
            room_id: room_text.to_owned(),
        },
    );
    StopOutcome { stopped_worker, delivery }
}

/// What a room's broadcast task does with a transcript.
#[derive(Debug)]
pub enum BroadcastStep {
    /// The transcript is another room's: nothing to do.
    Skip,
    /// Transcription is off for the room: the task ends and clears the room's mark.
    Stop,
    /// The transcript goes to the connections of the room.
    Deliver(Delivery),
}

/// What a room's broadcast task does with a transcript: a transcript of
/// another room is passed over; once transcription is off for the room,
/// the task stops; else the transcript goes to every connection of the
/// room.
pub fn transcript_step(
    rooms: &RoomManager,
    engine: &TranscriptionEngine,
    room_id: &ObjectId,
    event: TranscriptEvent,
) -> (step: BroadcastStep)
    requires
        rooms@.wf(),
    ensures
        event.room_id != *room_id ==> step is Skip,
        event.room_id == *room_id && !engine@.room_models.dom().contains(room_id@ as u128)
            ==> step is Stop,
        event.room_id == *room_id && engine@.room_models.dom().contains(room_id@ as u128) ==> (
        step matches BroadcastStep::Deliver(d) && d@ == for_connections(
            others_in(rooms@, *room_id, ""@),
            EventView::Transcript { event: event@ },
        )),
{
    if !event.room_id.same(room_id) {
        return BroadcastStep::Skip;
    }
    if !engine.is_enabled(room_id) {
        return BroadcastStep::Stop;
    }
    let connections = rooms.get_other_connection_ids(room_id, "");
    BroadcastStep::Deliver(to_connections(connections, OutboundEvent::Transcript { event }))
}

} // verus!
