use crate::text::opt_text;
use crate::ids::{hex_value, is_hex_text, ObjectId};
use crate::media::{source_or_default, MediaKind};
use crate::text::{parse_u64, parsed_u64, str_eq};
use vstd::prelude::*;

verus! {

/// What a client's message held, as far as the server reads it: the
/// `type`, whether there was a `data` object, and the fields of `data`. A
/// text field is `None` where it is absent or not a string; the media
/// engine's parameters are `None` where they are absent or not in the
/// engine's form.
#[derive(Debug)]
pub struct ClientEnvelope {
    pub msg_type: String,
    pub has_data: bool,
    pub room_id: Option<String>,
    pub presence: Option<String>,
    pub transport_id: Option<String>,
    pub dtls_parameters: Option<String>,
    pub kind: Option<String>,
    pub rtp_parameters: Option<String>,
    pub source: Option<String>,
    pub producer_id: Option<String>,
    pub rtp_capabilities: Option<String>,
    pub enabled: Option<bool>,
    pub model: Option<String>,
    pub file_id: Option<String>,
    pub playback_id: Option<String>,
}

/// A client's request, checked and with its identifiers read.
#[allow(inconsistent_fields)]
#[derive(Debug)]
pub enum ClientCommand {
    Ping,
    Typing { start: bool, room_id: ObjectId, room_text: String },
    PresenceUpdate { presence: String },
    MediaJoin { room_id: ObjectId },
    MediaConnectTransport { room_id: ObjectId, transport_id: u64, dtls_parameters: String },
    MediaProduce { room_id: ObjectId, kind: MediaKind, rtp_parameters: String, source: String },
    MediaConsume { room_id: ObjectId, producer_id: u64, rtp_capabilities: String },
    MediaProducerClose { room_id: ObjectId, producer_id: u64 },
    MediaLeave { room_id: ObjectId },
    TranscriptToggle { room_id: ObjectId, room_text: String, enabled: bool, model: Option<String> },
    PlayAudio { room_id: ObjectId, room_text: String, file_id: ObjectId, file_text: String },
    StopAudio { room_id: ObjectId, room_text: String, playback_id: String },
}

/// What a [`ClientCommand`] holds, as mathematical values.
#[allow(inconsistent_fields)]
pub ghost enum CommandView {
    Ping,
    Typing { start: bool, room_id: nat, room_text: Seq<char> },
    PresenceUpdate { presence: Seq<char> },
    MediaJoin { room_id: nat },
    MediaConnectTransport { room_id: nat, transport_id: u64, dtls_parameters: Seq<char> },
    MediaProduce { room_id: nat, kind: MediaKind, rtp_parameters: Seq<char>, source: Seq<char> },
    MediaConsume { room_id: nat, producer_id: u64, rtp_capabilities: Seq<char> },
    MediaProducerClose { room_id: nat, producer_id: u64 },
    MediaLeave { room_id: nat },
    TranscriptToggle { room_id: nat, room_text: Seq<char>, enabled: bool, model: Option<Seq<char>> },
    PlayAudio { room_id: nat, room_text: Seq<char>, file_id: nat, file_text: Seq<char> },
    StopAudio { room_id: nat, room_text: Seq<char>, playback_id: Seq<char> },
}

impl View for ClientCommand {
    type V = CommandView;

    open spec fn view(&self) -> CommandView {
        match *self {
            ClientCommand::Ping => CommandView::Ping,
            ClientCommand::Typing { start, room_id, room_text } => CommandView::Typing {
                start,
                room_id: room_id@,
                room_text: room_text@,
            },
            ClientCommand::PresenceUpdate { presence } => CommandView::PresenceUpdate {
                presence: presence@,
            },
            ClientCommand::MediaJoin { room_id } => CommandView::MediaJoin { room_id: room_id@ },
            ClientCommand::MediaConnectTransport {
                room_id,
                transport_id,
                dtls_parameters,
            } => CommandView::MediaConnectTransport {
                room_id: room_id@,
                transport_id,
                dtls_parameters: dtls_parameters@,
            },
            ClientCommand::MediaProduce {
                room_id,
                kind,
                rtp_parameters,
                source,
            } => CommandView::MediaProduce {
                room_id: room_id@,
                kind,
                rtp_parameters: rtp_parameters@,
                source: source@,
            },
            ClientCommand::MediaConsume {
                room_id,
                producer_id,
                rtp_capabilities,
            } => CommandView::MediaConsume {
                room_id: room_id@,
                producer_id,
                rtp_capabilities: rtp_capabilities@,
            },
            ClientCommand::MediaProducerClose {
                room_id,
                producer_id,
            } => CommandView::MediaProducerClose { room_id: room_id@, producer_id },
            ClientCommand::MediaLeave { room_id } => CommandView::MediaLeave { room_id: room_id@ },
            ClientCommand::TranscriptToggle {
                room_id,
                room_text,
                enabled,
                model,
            } => CommandView::TranscriptToggle {
                room_id: room_id@,
                room_text: room_text@,
                enabled,
                model: opt_text(model),
            },
            ClientCommand::PlayAudio {
                room_id,
                room_text,
                file_id,
                file_text,
            } => CommandView::PlayAudio {
                room_id: room_id@,
                room_text: room_text@,
                file_id: file_id@,
                file_text: file_text@,
            },
            ClientCommand::StopAudio {
                room_id,
                room_text,
                playback_id,
            } => CommandView::StopAudio {
                room_id: room_id@,
                room_text: room_text@,
                playback_id: playback_id@,
            },
        }
    }
}

/// What the server makes of a client's message.
#[derive(Debug)]
pub enum Decoded {
    /// A request to carry out.
    Command(ClientCommand),
    /// A media request that is refused: the sender is sent a `media:error` with this message.
    Reject(String),
    /// Nothing to do: an unknown type, or a typing notice or presence update
    /// that lacks what it needs.
    Ignore,
}

/// What a [`Decoded`] holds, as mathematical values.
pub ghost enum DecodedView {
    Command(CommandView),
    Reject(Seq<char>),
    Ignore,
}

impl View for Decoded {
    type V = DecodedView;

    open spec fn view(&self) -> DecodedView {
        match *self {
            Decoded::Command(c) => DecodedView::Command(c@),
            Decoded::Reject(m) => DecodedView::Reject(m@),
            Decoded::Ignore => DecodedView::Ignore,
        }
    }
}

/// The identifier that a text denotes, if it is twenty-four hexadecimal digits.
pub open spec fn object_id_of(text: Seq<char>) -> Option<nat> {
    if text.len() == 24 && is_hex_text(text) {
        Some(hex_value(text))
    } else {
        None
    }
}

/// The media kind that a text names.
pub open spec fn kind_of(text: Seq<char>) -> Option<MediaKind> {
    if text == "audio"@ {
        Some(MediaKind::Audio)
    } else if text == "video"@ {
        Some(MediaKind::Video)
    } else {
        None
    }
}

/// The recogniser that a client may select: `whisper` or `canary`. Any other name counts as none.
pub open spec fn model_of(text: Option<Seq<char>>) -> Option<Seq<char>> {
    match text {
        Some(t) => if t == "whisper"@ || t == "canary"@ {
            Some(t)
        } else {
            None
        },
        None => None,
    }
}

/// A typing notice: it needs a room; without one it is dropped.
pub open spec fn decode_typing(e: ClientEnvelope, start: bool) -> DecodedView {
    match opt_text(e.room_id) {
        Some(room) => match object_id_of(room) {
            Some(id) => DecodedView::Command(
                CommandView::Typing { start, room_id: id, room_text: room },
            ),
            None => DecodedView::Ignore,
        },
        None => DecodedView::Ignore,
    }
}

/// A request to join a room's call: a missing or malformed room is answered with an error.
pub open spec fn decode_join(e: ClientEnvelope) -> DecodedView {
    match opt_text(e.room_id) {
        None => DecodedView::Reject("Missing room_id"@),
        Some(room) => match object_id_of(room) {
            None => DecodedView::Reject("Invalid room_id"@),
            Some(id) => DecodedView::Command(CommandView::MediaJoin { room_id: id }),
        },
    }
}

/// A request to connect a transport: each missing or malformed part is
/// answered with its own error, checked in this order.
pub open spec fn decode_connect(e: ClientEnvelope) -> DecodedView {
    if !e.has_data {
        DecodedView::Reject("Missing data"@)
    } else if e.room_id is None {
        DecodedView::Reject("Missing room_id"@)
    } else if e.transport_id is None {
        DecodedView::Reject("Missing transport_id"@)
    } else if e.dtls_parameters is None {
        DecodedView::Reject("Invalid dtls_parameters"@)
    } else if object_id_of(e.room_id.unwrap()@) is None {
        DecodedView::Reject("Invalid room_id"@)
    } else if parsed_u64(e.transport_id.unwrap()@) is None {
        DecodedView::Reject("Invalid transport_id"@)
    } else {
        DecodedView::Command(
            CommandView::MediaConnectTransport {
                room_id: object_id_of(e.room_id.unwrap()@).unwrap(),
                transport_id: parsed_u64(e.transport_id.unwrap()@).unwrap(),
                dtls_parameters: e.dtls_parameters.unwrap()@,
            },
        )
    }
}

/// A request to produce: each missing or malformed part is answered with
/// its own error, checked in this order. A missing source is no error: it
/// defaults from the kind.
pub open spec fn decode_produce(e: ClientEnvelope) -> DecodedView {
    if !e.has_data {
        DecodedView::Reject("Missing data"@)
    } else if e.room_id is None {
        DecodedView::Reject("Missing room_id"@)
    } else if e.kind is None || kind_of(e.kind.unwrap()@) is None {
        DecodedView::Reject("Invalid kind"@)
    } else if e.rtp_parameters is None {
        DecodedView::Reject("Invalid rtp_parameters"@)
    } else if object_id_of(e.room_id.unwrap()@) is None {
        DecodedView::Reject("Invalid room_id"@)
    } else {
        let kind = kind_of(e.kind.unwrap()@).unwrap();
        DecodedView::Command(
            CommandView::MediaProduce {
                room_id: object_id_of(e.room_id.unwrap()@).unwrap(),
                kind,
                rtp_parameters: e.rtp_parameters.unwrap()@,
                source: source_or_default(kind, opt_text(e.source)),
            },
        )
    }
}

/// A request to consume: each missing or malformed part is answered with
/// its own error, checked in this order.
pub open spec fn decode_consume(e: ClientEnvelope) -> DecodedView {
    if !e.has_data {
        DecodedView::Reject("Missing data"@)
    } else if e.room_id is None {
        DecodedView::Reject("Missing room_id"@)
    } else if e.producer_id is None {
        DecodedView::Reject("Missing producer_id"@)
    } else if e.rtp_capabilities is None {
        DecodedView::Reject("Invalid rtp_capabilities"@)
    } else if object_id_of(e.room_id.unwrap()@) is None {
        DecodedView::Reject("Invalid room_id"@)
    } else if parsed_u64(e.producer_id.unwrap()@) is None {
        DecodedView::Reject("Invalid producer_id"@)
    } else {
        DecodedView::Command(
            CommandView::MediaConsume {
                room_id: object_id_of(e.room_id.unwrap()@).unwrap(),
                producer_id: parsed_u64(e.producer_id.unwrap()@).unwrap(),
                rtp_capabilities: e.rtp_capabilities.unwrap()@,
            },
        )
    }
}

/// A request to close a producer: each missing or malformed part is
/// answered with its own error, checked in this order.
pub open spec fn decode_producer_close(e: ClientEnvelope) -> DecodedView {
    if !e.has_data {
        DecodedView::Reject("Missing data"@)
    } else if e.room_id is None {
        DecodedView::Reject("Missing room_id"@)
    } else if e.producer_id is None {
        DecodedView::Reject("Missing producer_id"@)
    } else if object_id_of(e.room_id.unwrap()@) is None {
        DecodedView::Reject("Invalid room_id"@)
    } else if parsed_u64(e.producer_id.unwrap()@) is None {
        DecodedView::Reject("Invalid producer_id"@)
    } else {
        DecodedView::Command(
            CommandView::MediaProducerClose {
                room_id: object_id_of(e.room_id.unwrap()@).unwrap(),
                producer_id: parsed_u64(e.producer_id.unwrap()@).unwrap(),
            },
        )
    }
}

/// A request to leave a call: a missing or malformed room is answered with an error.
pub open spec fn decode_leave(e: ClientEnvelope) -> DecodedView {
    match opt_text(e.room_id) {
        None => DecodedView::Reject("Missing room_id"@),
        Some(room) => match object_id_of(room) {
            None => DecodedView::Reject("Invalid room_id"@),
            Some(id) => DecodedView::Command(CommandView::MediaLeave { room_id: id }),
        },
    }
}

/// A request to switch transcription: a missing or malformed room is
/// answered with an error; `enabled` defaults to off.
pub open spec fn decode_toggle(e: ClientEnvelope) -> DecodedView {
    if !e.has_data {
        DecodedView::Reject("Missing data"@)
    } else if e.room_id is None {
        DecodedView::Reject("Missing room_id"@)
    } else {
        match object_id_of(e.room_id.unwrap()@) {
            None => DecodedView::Reject("Invalid room_id"@),
            Some(id) => DecodedView::Command(
                CommandView::TranscriptToggle {
                    room_id: id,
                    room_text: e.room_id.unwrap()@,
                    enabled: e.enabled == Some(true),
                    model: model_of(opt_text(e.model)),
                },
            ),
        }
    }
}

/// A request to play a file into a room: each missing or malformed part
/// is answered with its own error, checked in this order.
pub open spec fn decode_play(e: ClientEnvelope) -> DecodedView {
    if !e.has_data {
        DecodedView::Reject("Missing data"@)
    } else if e.room_id is None {
        DecodedView::Reject("Missing room_id"@)
    } else if e.file_id is None {
        DecodedView::Reject("Missing file_id"@)
    } else if object_id_of(e.room_id.unwrap()@) is None {
        DecodedView::Reject("Invalid room_id"@)
    } else if object_id_of(e.file_id.unwrap()@) is None {
        DecodedView::Reject("Invalid file_id"@)
    } else {
        DecodedView::Command(
            CommandView::PlayAudio {
                room_id: object_id_of(e.room_id.unwrap()@).unwrap(),
                room_text: e.room_id.unwrap()@,
                file_id: object_id_of(e.file_id.unwrap()@).unwrap(),
                file_text: e.file_id.unwrap()@,
            },
        )
    }
}

/// A request to stop a playback: each missing or malformed part is
/// answered with its own error, checked in this order.
pub open spec fn decode_stop(e: ClientEnvelope) -> DecodedView {
    if !e.has_data {
        DecodedView::Reject("Missing data"@)
    } else if e.room_id is None {
        DecodedView::Reject("Missing room_id"@)
    } else if e.playback_id is None {
        DecodedView::Reject("Missing playback_id"@)
    } else {
        match object_id_of(e.room_id.unwrap()@) {
            None => DecodedView::Reject("Invalid room_id"@),
            Some(id) => DecodedView::Command(
                CommandView::StopAudio {
                    room_id: id,
                    room_text: e.room_id.unwrap()@,
                    playback_id: e.playback_id.unwrap()@,
                },
            ),
        }
    }
}

/// What the server makes of a client's message, by its `type`. A media
/// request that lacks what it needs is refused with an error for its
/// sender; a typing notice or a presence update that does is dropped; a
/// type that the server does not know is ignored.
pub open spec fn decode_spec(e: ClientEnvelope) -> DecodedView {
    let t = e.msg_type@;
    if t == "ping"@ {
        DecodedView::Command(CommandView::Ping)
    } else if t == "typing:start"@ {
        decode_typing(e, true)
    } else if t == "typing:stop"@ {
        decode_typing(e, false)
    } else if t == "presence:update"@ {
        match opt_text(e.presence) {
            Some(p) => DecodedView::Command(CommandView::PresenceUpdate { presence: p }),
            None => DecodedView::Ignore,
        }
    } else if t == "media:join"@ {
        decode_join(e)
    } else if t == "media:connect_transport"@ {
        decode_connect(e)
    } else if t == "media:produce"@ {
        decode_produce(e)
    } else if t == "media:consume"@ {
        decode_consume(e)
    } else if t == "media:producer_close"@ {
        decode_producer_close(e)
    } else if t == "media:leave"@ {
        decode_leave(e)
    } else if t == "media:transcript_toggle"@ {
        decode_toggle(e)
    } else if t == "media:play_audio"@ {
        decode_play(e)
    } else if t == "media:stop_audio"@ {
        decode_stop(e)
    } else {
        DecodedView::Ignore
    }
}

/// Reads an identifier from an optional text.
fn read_id(text: &Option<String>) -> (id: Option<ObjectId>)
    ensures
        id is Some <==> text is Some && object_id_of(text.unwrap()@) is Some,
        id is Some ==> id.unwrap()@ == object_id_of(text.unwrap()@).unwrap(),
{
    match text {
        Some(t) => ObjectId::parse_str(t.as_str()),
        None => None,
    }
}

/// Reads a media kind.
pub fn parse_kind(text: &str) -> (kind: Option<MediaKind>)
    ensures
        kind == kind_of(text@),
{
    if str_eq(text, "audio") {
        Some(MediaKind::Audio)
    } else if str_eq(text, "video") {
        Some(MediaKind::Video)
    } else {
        None
    }
}

fn read_typing(e: &ClientEnvelope, start: bool) -> (d: Decoded)
    ensures
        d@ == decode_typing(*e, start),
{
    match (&e.room_id, read_id(&e.room_id)) {
        (Some(room), Some(id)) => Decoded::Command(
            ClientCommand::Typing { start, room_id: id, room_text: room.clone() },
        ),
        _ => Decoded::Ignore,
    }
}

fn read_join(e: &ClientEnvelope) -> (d: Decoded)
    ensures
        d@ == decode_join(*e),
{
    if e.room_id.is_none() {
        return Decoded::Reject("Missing room_id".to_owned());
    }
    match read_id(&e.room_id) {
        Some(id) => Decoded::Command(ClientCommand::MediaJoin { room_id: id }),
        None => Decoded::Reject("Invalid room_id".to_owned()),
    }
}

fn reject(message: &str) -> (d: Decoded)
    ensures
        d@ == DecodedView::Reject(message@),
{
    Decoded::Reject(message.to_owned())
}

fn read_connect(e: &ClientEnvelope) -> (d: Decoded)
    ensures
        d@ == decode_connect(*e),
{
    if !e.has_data {
        return reject("Missing data");
    }
    let room = match &e.room_id {
        Some(r) => r,
        None => {
            return reject("Missing room_id");
        },
    };
    let transport = match &e.transport_id {
        Some(t) => t,
        None => {
            return reject("Missing transport_id");
        },
    };
    let dtls = match &e.dtls_parameters {
        Some(d) => d,
        None => {
            return reject("Invalid dtls_parameters");
        },
    };
    let id = match ObjectId::parse_str(room.as_str()) {
        Some(id) => id,
        None => {
            return reject("Invalid room_id");
        },
    };
    match parse_u64(transport.as_str()) {
        Some(transport_id) => Decoded::Command(
            ClientCommand::MediaConnectTransport {
                room_id: id,
                transport_id,
                dtls_parameters: dtls.clone(),
            },
        ),
        None => reject("Invalid transport_id"),
    }
}

fn read_produce(e: &ClientEnvelope) -> (d: Decoded)
    ensures
        d@ == decode_produce(*e),
{
    if !e.has_data {
        return Decoded::Reject("Missing data".to_owned());
    }
    let room = match &e.room_id {
        Some(r) => r,
        None => {
            return Decoded::Reject("Missing room_id".to_owned());
        },
    };
    let kind = match &e.kind {
        Some(k) => match parse_kind(k.as_str()) {
            Some(kind) => kind,
            None => {
                return Decoded::Reject("Invalid kind".to_owned());
            },
        },
        None => {
            return Decoded::Reject("Invalid kind".to_owned());
        },
    };
    let rtp_parameters = match &e.rtp_parameters {
        Some(p) => p,
        None => {
            return Decoded::Reject("Invalid rtp_parameters".to_owned());
        },
    };
    let source: String = match &e.source {
        Some(s) => s.clone(),
        None => match kind {
            MediaKind::Audio => "audio".to_owned(),
            MediaKind::Video => "camera".to_owned(),
        },
    };
    match ObjectId::parse_str(room.as_str()) {
        Some(id) => Decoded::Command(
            ClientCommand::MediaProduce {
                room_id: id,
                kind,
                rtp_parameters: rtp_parameters.clone(),
                source,
            },
        ),
        None => Decoded::Reject("Invalid room_id".to_owned()),
    }
}

fn read_consume(e: &ClientEnvelope) -> (d: Decoded)
    ensures
        d@ == decode_consume(*e),
{
    if !e.has_data {
        return Decoded::Reject("Missing data".to_owned());
    }
    let room = match &e.room_id {
        Some(r) => r,
        None => {
            return Decoded::Reject("Missing room_id".to_owned());
        },
    };
    let producer = match &e.producer_id {
        Some(p) => p,
        None => {
            return Decoded::Reject("Missing producer_id".to_owned());
        },
    };
    let capabilities = match &e.rtp_capabilities {
        Some(c) => c,
        None => {
            return Decoded::Reject("Invalid rtp_capabilities".to_owned());
        },
    };
    let id = match ObjectId::parse_str(room.as_str()) {
        Some(id) => id,
        None => {
            return Decoded::Reject("Invalid room_id".to_owned());
        },
    };
    match parse_u64(producer.as_str()) {
        Some(producer_id) => Decoded::Command(
            ClientCommand::MediaConsume {
                room_id: id,
                producer_id,
                rtp_capabilities: capabilities.clone(),
            },
        ),
        None => Decoded::Reject("Invalid producer_id".to_owned()),
    }
}

fn read_producer_close(e: &ClientEnvelope) -> (d: Decoded)
    ensures
        d@ == decode_producer_close(*e),
{
    if !e.has_data {
        return reject("Missing data");
    }
    let room = match &e.room_id {
        Some(r) => r,
        None => {
            return reject("Missing room_id");
        },
    };
    let producer = match &e.producer_id {
        Some(p) => p,
        None => {
            return reject("Missing producer_id");
        },
    };
    let id = match ObjectId::parse_str(room.as_str()) {
        Some(id) => id,
        None => {
            return reject("Invalid room_id");
        },
    };
    match parse_u64(producer.as_str()) {
        Some(producer_id) => Decoded::Command(
            ClientCommand::MediaProducerClose { room_id: id, producer_id },
        ),
        None => reject("Invalid producer_id"),
    }
}

fn read_leave(e: &ClientEnvelope) -> (d: Decoded)
    ensures
        d@ == decode_leave(*e),
{
    let room = match &e.room_id {
        Some(r) => r,
        None => {
            return reject("Missing room_id");
        },
    };
    match ObjectId::parse_str(room.as_str()) {
        Some(id) => Decoded::Command(ClientCommand::MediaLeave { room_id: id }),
        None => reject("Invalid room_id"),
    }
}

fn read_toggle(e: &ClientEnvelope) -> (d: Decoded)
    ensures
        d@ == decode_toggle(*e),
{
    if !e.has_data {
        return reject("Missing data");
    }
    let room = match &e.room_id {
        Some(r) => r,
        None => {
            return reject("Missing room_id");
        },
    };
    let enabled = match e.enabled {
        Some(b) => b,
        None => false,
    };
    let model: Option<String> = match &e.model {
        Some(m) => if str_eq(m.as_str(), "whisper") || str_eq(m.as_str(), "canary") {
            Some(m.clone())
        } else {
            None
        },
        None => None,
    };
    match ObjectId::parse_str(room.as_str()) {
        Some(id) => Decoded::Command(
            ClientCommand::TranscriptToggle { room_id: id, room_text: room.clone(), enabled, model },
        ),
        None => reject("Invalid room_id"),
    }
}

fn read_play(e: &ClientEnvelope) -> (d: Decoded)
    ensures
        d@ == decode_play(*e),
{
    if !e.has_data {
        return reject("Missing data");
    }
    let room = match &e.room_id {
        Some(r) => r,
        None => {
            return reject("Missing room_id");
        },
    };
    let file = match &e.file_id {
        Some(f) => f,
        None => {
            return reject("Missing file_id");
        },
    };
    let id = match ObjectId::parse_str(room.as_str()) {
        Some(id) => id,
        None => {
            return reject("Invalid room_id");
        },
    };
    match ObjectId::parse_str(file.as_str()) {
        Some(file_id) => Decoded::Command(
            ClientCommand::PlayAudio {
                room_id: id,
                room_text: room.clone(),
                file_id,
                file_text: file.clone(),
            },
        ),
        None => reject("Invalid file_id"),
    }
}

fn read_stop(e: &ClientEnvelope) -> (d: Decoded)
    ensures
        d@ == decode_stop(*e),
{
    if !e.has_data {
        return reject("Missing data");
    }
    let room = match &e.room_id {
        Some(r) => r,
        None => {
            return reject("Missing room_id");
        },
    };
    let playback = match &e.playback_id {
        Some(p) => p,
        None => {
            return reject("Missing playback_id");
        },
    };
    match ObjectId::parse_str(room.as_str()) {
        Some(id) => Decoded::Command(
            ClientCommand::StopAudio {
                room_id: id,
                room_text: room.clone(),
                playback_id: playback.clone(),
            },
        ),
        None => reject("Invalid room_id"),
    }
}

/// Decides what to do with a client's message: carry out a request,
/// refuse it with a `media:error`, or ignore it.
pub fn decode(e: &ClientEnvelope) -> (d: Decoded)
    ensures
        d@ == decode_spec(*e),
{
    let t = e.msg_type.as_str();
    if str_eq(t, "ping") {
        Decoded::Command(ClientCommand::Ping)
    } else if str_eq(t, "typing:start") {
        read_typing(e, true)
    } else if str_eq(t, "typing:stop") {
        read_typing(e, false)
    } else if str_eq(t, "presence:update") {
        match &e.presence {
            Some(p) => Decoded::Command(ClientCommand::PresenceUpdate { presence: p.clone() }),
            None => Decoded::Ignore,
        }
    } else if str_eq(t, "media:join") {
        read_join(e)
    } else if str_eq(t, "media:connect_transport") {
        read_connect(e)
    } else if str_eq(t, "media:produce") {
        read_produce(e)
    } else if str_eq(t, "media:consume") {
        read_consume(e)
    } else if str_eq(t, "media:producer_close") {
        read_producer_close(e)
    } else if str_eq(t, "media:leave") {
        read_leave(e)
    } else if str_eq(t, "media:transcript_toggle") {
        read_toggle(e)
    } else if str_eq(t, "media:play_audio") {
        read_play(e)
    } else if str_eq(t, "media:stop_audio") {
        read_stop(e)
    } else {
        Decoded::Ignore
    }
}

} // verus!
