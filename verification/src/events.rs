use crate::ids::ObjectId;
use crate::media::MediaKind;
use crate::seqs::views;
use crate::text::opt_text;
use crate::transcript::{TranscriptEvent, TranscriptView};
use crate::turn::{IceServer, IceServerView};
use vstd::prelude::*;

verus! {

/// The transport protocol of an ICE candidate.
#[derive(Clone, Copy, Debug, PartialEq, Eq, Structural)]
pub enum IceProtocol {
    Udp,
    Tcp,
}

/// An ICE candidate of a transport, as the media engine reported it.
#[derive(Debug)]
pub struct IceCandidate {
    pub protocol: IceProtocol,
    /// Whether a TCP candidate is passive: the server listens, the client connects.
    pub tcp_passive: bool,
    pub ip: String,
    pub port: u16,
    /// The candidate in the media engine's wire form.
    pub wire: String,
}

/// What an [`IceCandidate`] holds, as mathematical values.
pub ghost struct IceCandidateView {
    pub protocol: IceProtocol,
    pub tcp_passive: bool,
    pub ip: Seq<char>,
    pub port: u16,
    pub wire: Seq<char>,
}

impl View for IceCandidate {
    type V = IceCandidateView;

    open spec fn view(&self) -> IceCandidateView {
        IceCandidateView {
            protocol: self.protocol,
            tcp_passive: self.tcp_passive,
            ip: self.ip@,
            port: self.port,
            wire: self.wire@,
        }
    }
}

/// Whether the candidates hold one over UDP and a passive one over TCP.
pub open spec fn serves_udp_and_tcp(candidates: Seq<IceCandidateView>) -> bool {
    &&& exists|i: int|
        0 <= i < candidates.len() && (#[trigger] candidates[i]).protocol == IceProtocol::Udp
    &&& exists|i: int|
        0 <= i < candidates.len() && (#[trigger] candidates[i]).protocol == IceProtocol::Tcp
            && candidates[i].tcp_passive
}

/// What a client needs to set up its end of a transport.
#[derive(Debug)]
pub struct TransportOptions {
    pub id: u64,
    /// The ICE parameters in the media engine's wire form.
    pub ice_parameters: String,
    pub ice_candidates: Vec<IceCandidate>,
    /// The DTLS parameters in the media engine's wire form.
    pub dtls_parameters: String,
}

/// What a [`TransportOptions`] holds, as mathematical values.
pub ghost struct TransportOptionsView {
    pub id: u64,
    pub ice_parameters: Seq<char>,
    pub ice_candidates: Seq<IceCandidateView>,
    pub dtls_parameters: Seq<char>,
}

impl View for TransportOptions {
    type V = TransportOptionsView;

    open spec fn view(&self) -> TransportOptionsView {
        TransportOptionsView {
            id: self.id,
            ice_parameters: self.ice_parameters@,
            ice_candidates: views(self.ice_candidates@),
            dtls_parameters: self.dtls_parameters@,
        }
    }
}

/// Whether the candidates hold one over UDP and a passive one over TCP.
pub fn has_udp_and_tcp(candidates: &Vec<IceCandidate>) -> (b: bool)
    ensures
        b == serves_udp_and_tcp(views(candidates@)),
{
    let mut udp = false;
    let mut tcp = false;
    let mut i: usize = 0;
    while i < candidates.len()
        invariant
            i <= candidates.len(),
            udp == exists|k: int|
                0 <= k < i && (#[trigger] views(candidates@)[k]).protocol == IceProtocol::Udp,
            tcp == exists|k: int|
                0 <= k < i && (#[trigger] views(candidates@)[k]).protocol == IceProtocol::Tcp
                    && views(candidates@)[k].tcp_passive,
        decreases candidates.len() - i,
    {
        proof {
            assert(views(candidates@)[i as int] == candidates@[i as int]@);
        }
        match candidates[i].protocol {
            IceProtocol::Udp => {
                udp = true;
            },
            IceProtocol::Tcp => {
                if candidates[i].tcp_passive {
                    tcp = true;
                }
            },
        }
        i += 1;
    }
    udp && tcp
}

/// A message from the server to a client.
#[allow(inconsistent_fields)]
#[derive(Debug)]
pub enum OutboundEvent {
    Connected { user_id: ObjectId },
    Pong,
    MediaError { message: String },
    RouterCapabilities { rtp_capabilities: String },
    TransportCreated {
        send_transport: TransportOptions,
        recv_transport: TransportOptions,
        ice_servers: Vec<IceServer>,
        force_relay: bool,
    },
    NewProducer {
        producer_id: u64,
        user_id: ObjectId,
        connection_id: String,
        kind: MediaKind,
        source: String,
    },
    ProduceResult { id: u64 },
    ConsumerCreated { id: u64, producer_id: u64, kind: MediaKind, rtp_parameters: String },
    ProducerClosed { producer_id: u64, user_id: ObjectId },
    PeerLeft { user_id: ObjectId, connection_id: String, room_id: ObjectId },
    /// A user left a call with all connections.
    UserLeft { user_id: ObjectId, room_id: ObjectId },
    RoomClosed { room_id: ObjectId },
    Transcript { event: TranscriptEvent },
    TranscriptStatus { room_id: String, enabled: bool, model: Option<String> },
    AudioPlaybackStart {
        file_url: String,
        file_id: String,
        filename: String,
        playback_id: String,
        room_id: String,
    },
    AudioPlaybackStop { playback_id: String, room_id: String },
    Typing { start: bool, room_id: String, user_id: ObjectId },
    PresenceUpdate { user_id: ObjectId, presence: String },
    /// A message was posted (`created`) or changed; `message` is the
    /// message as clients see it, in wire form.
    MessageSaved { created: bool, message: String },
    MessageDeleted { id: String, room_id: String },
    MessagePinned { message_id: String, room_id: String, pinned: bool },
    NotificationNew {
        id: String,
        title: String,
        body: String,
        link: Option<String>,
        created_at: String,
    },
    CallStarted { room_id: ObjectId, room_name: String, started_by: ObjectId },
    CallUpdated { room_id: ObjectId, participant_count: u32 },
    CallEnded { room_id: ObjectId },
    /// A chat message was written in a call; `message` is the message in wire form.
    CallMessageCreated { message: String },
}

/// What an [`OutboundEvent`] holds, as mathematical values.
#[allow(inconsistent_fields)]
pub ghost enum EventView {
    Connected { user_id: ObjectId },
    Pong,
    MediaError { message: Seq<char> },
    RouterCapabilities { rtp_capabilities: Seq<char> },
    TransportCreated {
        send_transport: TransportOptionsView,
        recv_transport: TransportOptionsView,
        ice_servers: Seq<IceServerView>,
        force_relay: bool,
    },
    NewProducer {
        producer_id: u64,
        user_id: ObjectId,
        connection_id: Seq<char>,
        kind: MediaKind,
        source: Seq<char>,
    },
    ProduceResult { id: u64 },
    ConsumerCreated { id: u64, producer_id: u64, kind: MediaKind, rtp_parameters: Seq<char> },
    ProducerClosed { producer_id: u64, user_id: ObjectId },
    PeerLeft { user_id: ObjectId, connection_id: Seq<char>, room_id: ObjectId },
    UserLeft { user_id: ObjectId, room_id: ObjectId },
    RoomClosed { room_id: ObjectId },
    Transcript { event: TranscriptView },
    TranscriptStatus { room_id: Seq<char>, enabled: bool, model: Option<Seq<char>> },
    AudioPlaybackStart {
        file_url: Seq<char>,
        file_id: Seq<char>,
        filename: Seq<char>,
        playback_id: Seq<char>,
        room_id: Seq<char>,
    },
    AudioPlaybackStop { playback_id: Seq<char>, room_id: Seq<char> },
    Typing { start: bool, room_id: Seq<char>, user_id: ObjectId },
    PresenceUpdate { user_id: ObjectId, presence: Seq<char> },
    MessageSaved { created: bool, message: Seq<char> },
    MessageDeleted { id: Seq<char>, room_id: Seq<char> },
    MessagePinned { message_id: Seq<char>, room_id: Seq<char>, pinned: bool },
    NotificationNew {
        id: Seq<char>,
        title: Seq<char>,
        body: Seq<char>,
        link: Option<Seq<char>>,
        created_at: Seq<char>,
    },
    CallStarted { room_id: ObjectId, room_name: Seq<char>, started_by: ObjectId },
    CallUpdated { room_id: ObjectId, participant_count: u32 },
    CallEnded { room_id: ObjectId },
    CallMessageCreated { message: Seq<char> },
}

impl View for OutboundEvent {
    type V = EventView;

    open spec fn view(&self) -> EventView {
        match *self {
            OutboundEvent::Connected { user_id } => EventView::Connected { user_id },
            OutboundEvent::Pong => EventView::Pong,
            OutboundEvent::MediaError { message } => EventView::MediaError { message: message@ },
            OutboundEvent::RouterCapabilities { rtp_capabilities } => EventView::RouterCapabilities {
                rtp_capabilities: rtp_capabilities@,
            },
            OutboundEvent::TransportCreated {
                send_transport,
                recv_transport,
                ice_servers,
                force_relay,
            } => EventView::TransportCreated {
                send_transport: send_transport@,
                recv_transport: recv_transport@,
                ice_servers: views(ice_servers@),
                force_relay,
            },
            OutboundEvent::NewProducer {
                producer_id,
                user_id,
                connection_id,
                kind,
                source,
            } => EventView::NewProducer {
                producer_id,
                user_id,
                connection_id: connection_id@,
                kind,
                source: source@,
            },
            OutboundEvent::ProduceResult { id } => EventView::ProduceResult { id },
            OutboundEvent::ConsumerCreated {
                id,
                producer_id,
                kind,
                rtp_parameters,
            } => EventView::ConsumerCreated {
                id,
                producer_id,
                kind,
                rtp_parameters: rtp_parameters@,
            },
            OutboundEvent::ProducerClosed { producer_id, user_id } => EventView::ProducerClosed {
                producer_id,
                user_id,
            },
            OutboundEvent::PeerLeft { user_id, connection_id, room_id } => EventView::PeerLeft {
                user_id,
                connection_id: connection_id@,
                room_id,
            },
            OutboundEvent::UserLeft { user_id, room_id } => EventView::UserLeft {
                user_id,
                room_id,
            },
            OutboundEvent::RoomClosed { room_id } => EventView::RoomClosed { room_id },
            OutboundEvent::Transcript { event } => EventView::Transcript {
                event: event@,
            },
            OutboundEvent::TranscriptStatus {
                room_id,
                enabled,
                model,
            } => EventView::TranscriptStatus {
                room_id: room_id@,
                enabled,
                model: opt_text(model),
            },
            OutboundEvent::AudioPlaybackStart {
                file_url,
                file_id,
                filename,
                playback_id,
                room_id,
            } => EventView::AudioPlaybackStart {
                file_url: file_url@,
                file_id: file_id@,
                filename: filename@,
                playback_id: playback_id@,
                room_id: room_id@,
            },
            OutboundEvent::AudioPlaybackStop {
                playback_id,
                room_id,
            } => EventView::AudioPlaybackStop { playback_id: playback_id@, room_id: room_id@ },
            OutboundEvent::Typing { start, room_id, user_id } => EventView::Typing {
                start,
                room_id: room_id@,
                user_id,
            },
            OutboundEvent::PresenceUpdate { user_id, presence } => EventView::PresenceUpdate {
                user_id,
                presence: presence@,
            },
            OutboundEvent::MessageSaved { created, message } => EventView::MessageSaved {
                created,
                message: message@,
            },
            OutboundEvent::MessageDeleted { id, room_id } => EventView::MessageDeleted {
                id: id@,
                room_id: room_id@,
            },
            OutboundEvent::MessagePinned {
                message_id,
                room_id,
                pinned,
            } => EventView::MessagePinned { message_id: message_id@, room_id: room_id@, pinned },
            OutboundEvent::NotificationNew {
                id,
                title,
                body,
                link,
                created_at,
            } => EventView::NotificationNew {
                id: id@,
                title: title@,
                body: body@,
                link: opt_text(link),
                created_at: created_at@,
            },
            OutboundEvent::CallStarted {
                room_id,
                room_name,
                started_by,
            } => EventView::CallStarted { room_id, room_name: room_name@, started_by },
            OutboundEvent::CallUpdated {
                room_id,
                participant_count,
            } => EventView::CallUpdated { room_id, participant_count },
            OutboundEvent::CallEnded { room_id } => EventView::CallEnded { room_id },
            OutboundEvent::CallMessageCreated { message } => EventView::CallMessageCreated {
                message: message@,
            },
        }
    }
}

/// The `type` under which an event goes over the wire.
pub open spec fn event_type_text(e: EventView) -> Seq<char> {
    match e {
        EventView::Connected { .. } => "connected"@,
        EventView::Pong => "pong"@,
        EventView::MediaError { .. } => "media:error"@,
        EventView::RouterCapabilities { .. } => "media:router_capabilities"@,
        EventView::TransportCreated { .. } => "media:transport_created"@,
        EventView::NewProducer { .. } => "media:new_producer"@,
        EventView::ProduceResult { .. } => "media:produce_result"@,
        EventView::ConsumerCreated { .. } => "media:consumer_created"@,
        EventView::ProducerClosed { .. } => "media:producer_closed"@,
        EventView::PeerLeft { .. } => "media:peer_left"@,
        EventView::UserLeft { .. } => "media:peer_left"@,
        EventView::RoomClosed { .. } => "media:room_closed"@,
        EventView::Transcript { .. } => "media:transcript"@,
        EventView::TranscriptStatus { .. } => "media:transcript_status"@,
        EventView::AudioPlaybackStart { .. } => "media:audio_playback"@,
        EventView::AudioPlaybackStop { .. } => "media:audio_playback"@,
        EventView::Typing { start, .. } => if start {
            "typing:start"@
        } else {
            "typing:stop"@
        },
        EventView::PresenceUpdate { .. } => "presence:update"@,
        EventView::MessageSaved { created, .. } => if created {
            "message:create"@
        } else {
            "message:update"@
        },
        EventView::MessageDeleted { .. } => "message:delete"@,
        EventView::MessagePinned { pinned, .. } => if pinned {
            "message:pin"@
        } else {
            "message:unpin"@
        },
        EventView::NotificationNew { .. } => "notification:new"@,
        EventView::CallStarted { .. } => "room:call_started"@,
        EventView::CallUpdated { .. } => "room:call_updated"@,
        EventView::CallEnded { .. } => "room:call_ended"@,
        EventView::CallMessageCreated { .. } => "call:message:create"@,
    }
}

impl OutboundEvent {
    /// The `type` under which the event goes over the wire.
    pub fn event_type(&self) -> (name: &'static str)
        ensures
            name@ == event_type_text(self@),
    {
        match self {
            OutboundEvent::Connected { .. } => "connected",
            OutboundEvent::Pong => "pong",
            OutboundEvent::MediaError { .. } => "media:error",
            OutboundEvent::RouterCapabilities { .. } => "media:router_capabilities",
            OutboundEvent::TransportCreated { .. } => "media:transport_created",
            OutboundEvent::NewProducer { .. } => "media:new_producer",
            OutboundEvent::ProduceResult { .. } => "media:produce_result",
            OutboundEvent::ConsumerCreated { .. } => "media:consumer_created",
            OutboundEvent::ProducerClosed { .. } => "media:producer_closed",
            OutboundEvent::PeerLeft { .. } => "media:peer_left",
            OutboundEvent::UserLeft { .. } => "media:peer_left",
            OutboundEvent::RoomClosed { .. } => "media:room_closed",
            OutboundEvent::Transcript { .. } => "media:transcript",
            OutboundEvent::TranscriptStatus { .. } => "media:transcript_status",
            OutboundEvent::AudioPlaybackStart { .. } => "media:audio_playback",
            OutboundEvent::AudioPlaybackStop { .. } => "media:audio_playback",
            OutboundEvent::Typing { start, .. } => if *start {
                "typing:start"
            } else {
                "typing:stop"
            },
            OutboundEvent::PresenceUpdate { .. } => "presence:update",
            OutboundEvent::MessageSaved { created, .. } => if *created {
                "message:create"
            } else {
                "message:update"
            },
            OutboundEvent::MessageDeleted { .. } => "message:delete",
            OutboundEvent::MessagePinned { pinned, .. } => if *pinned {
                "message:pin"
            } else {
                "message:unpin"
            },
            OutboundEvent::NotificationNew { .. } => "notification:new",
            OutboundEvent::CallStarted { .. } => "room:call_started",
            OutboundEvent::CallUpdated { .. } => "room:call_updated",
            OutboundEvent::CallEnded { .. } => "room:call_ended",
            OutboundEvent::CallMessageCreated { .. } => "call:message:create",
        }
    }
}

/// To whom an event goes: one connection, or every connection of one user.
#[derive(Debug)]
pub enum Target {
    Connection(String),
    User(ObjectId),
}

/// What a [`Target`] holds, as mathematical values.
pub ghost enum TargetView {
    Connection(Seq<char>),
    User(ObjectId),
}

impl View for Target {
    type V = TargetView;

    open spec fn view(&self) -> TargetView {
        match *self {
            Target::Connection(c) => TargetView::Connection(c@),
            Target::User(u) => TargetView::User(u),
        }
    }
}

/// An event and those it goes to, in order.
#[derive(Debug)]
pub struct Delivery {
    pub targets: Vec<Target>,
    pub event: OutboundEvent,
}

/// What a [`Delivery`] holds, as mathematical values.
pub ghost struct DeliveryView {
    pub targets: Seq<TargetView>,
    pub event: EventView,
}

impl View for Delivery {
    type V = DeliveryView;

    open spec fn view(&self) -> DeliveryView {
        DeliveryView { targets: views(self.targets@), event: self.event@ }
    }
}

/// The connections `connections` as targets.
pub open spec fn connection_targets(connections: Seq<Seq<char>>) -> Seq<TargetView> {
    Seq::new(connections.len(), |i: int| TargetView::Connection(connections[i]))
}

/// The users `users` as targets.
pub open spec fn user_targets(users: Seq<ObjectId>) -> Seq<TargetView> {
    Seq::new(users.len(), |i: int| TargetView::User(users[i]))
}

/// Makes targets of connections.
pub fn to_connection_targets(connections: Vec<String>) -> (targets: Vec<Target>)
    ensures
        views(targets@) == connection_targets(views(connections@)),
{
    let mut targets: Vec<Target> = Vec::new();
    let mut i: usize = 0;
    while i < connections.len()
        invariant
            i <= connections.len(),
            views(targets@) == connection_targets(views(connections@)).take(i as int),
        decreases connections.len() - i,
    {
        let name: &String = &connections[i];
        let ghost before = views(targets@);
        targets.push(Target::Connection(name.clone()));
        proof {
            assert(views(targets@) =~= before.push(TargetView::Connection(name@)));
            assert(views(targets@) =~= connection_targets(views(connections@)).take(
                i as int + 1,
            ));
        }
        i += 1;
    }
    proof {
        let all = connection_targets(views(connections@));
        assert(all.take(all.len() as int) =~= all);
    }
    targets
}

/// Makes targets of users.
pub fn to_user_targets(users: &Vec<ObjectId>) -> (targets: Vec<Target>)
    ensures
        views(targets@) == user_targets(users@),
{
    let mut targets: Vec<Target> = Vec::new();
    let mut i: usize = 0;
    while i < users.len()
        invariant
            i <= users.len(),
            views(targets@) == user_targets(users@).take(i as int),
        decreases users.len() - i,
    {
        let ghost before = views(targets@);
        targets.push(Target::User(users[i]));
        proof {
            assert(views(targets@) =~= before.push(TargetView::User(users@[i as int])));
            assert(views(targets@) =~= user_targets(users@).take(i as int + 1));
        }
        i += 1;
    }
    proof {
        let all = user_targets(users@);
        assert(all.take(all.len() as int) =~= all);
    }
    targets
}

} // verus!
