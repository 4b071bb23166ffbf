use roomler_core::media::MediaKind;
use roomler_core::protocol::{decode, parse_kind, ClientCommand, ClientEnvelope, Decoded};

const ROOM: &str = "65a1b2c3d4e5f60718293a4b";

fn envelope(msg_type: &str) -> ClientEnvelope {
    ClientEnvelope {
        msg_type: msg_type.to_string(),
        has_data: true,
        room_id: Some(ROOM.to_string()),
        presence: None,
        transport_id: None,
        dtls_parameters: None,
        kind: None,
        rtp_parameters: None,
        source: None,
        producer_id: None,
        rtp_capabilities: None,
        enabled: None,
        model: None,
        file_id: None,
        playback_id: None,
    }
}

fn rejected(e: &ClientEnvelope) -> String {
    match decode(e) {
        Decoded::Reject(message) => message,
        other => panic!("{other:?}"),
    }
}

#[test]
fn source_field_tolerance() {
    let mut e = envelope("media:produce");
    e.kind = Some("video".to_string());
    e.rtp_parameters = Some("{}".to_string());
    match decode(&e) {
        Decoded::Command(ClientCommand::MediaProduce { kind, source, room_id, rtp_parameters }) => {
            assert_eq!(kind, MediaKind::Video);
            assert_eq!(source, "camera");
            assert_eq!(room_id.to_hex(), ROOM);
            assert_eq!(rtp_parameters, "{}");
        }
        other => panic!("{other:?}"),
    }
    e.source = Some("screen".to_string());
    assert!(matches!(
        decode(&e),
        Decoded::Command(ClientCommand::MediaProduce { source, .. }) if source == "screen"
    ));
    e.kind = Some("audio".to_string());
    e.source = None;
    assert!(matches!(
        decode(&e),
        Decoded::Command(ClientCommand::MediaProduce { kind: MediaKind::Audio, source, .. }) if source == "audio"
    ));
}

#[test]
fn produce_names_what_is_wrong() {
    let mut e = envelope("media:produce");
    e.has_data = false;
    assert_eq!(rejected(&e), "Missing data");
    e.has_data = true;
    e.room_id = None;
    assert_eq!(rejected(&e), "Missing room_id");
    e.room_id = Some("nope".to_string());
    assert_eq!(rejected(&e), "Invalid kind");
    e.kind = Some("smell".to_string());
    assert_eq!(rejected(&e), "Invalid kind");
    e.kind = Some("audio".to_string());
    assert_eq!(rejected(&e), "Invalid rtp_parameters");
    e.rtp_parameters = Some("{}".to_string());
    assert_eq!(rejected(&e), "Invalid room_id");
}

#[test]
fn consume_names_what_is_wrong() {
    let mut e = envelope("media:consume");
    e.has_data = false;
    assert_eq!(rejected(&e), "Missing data");
    e.has_data = true;
    e.room_id = None;
    assert_eq!(rejected(&e), "Missing room_id");
    e.room_id = Some("x".to_string());
    assert_eq!(rejected(&e), "Missing producer_id");
    e.producer_id = Some("abc".to_string());
    assert_eq!(rejected(&e), "Invalid rtp_capabilities");
    e.rtp_capabilities = Some("{}".to_string());
    assert_eq!(rejected(&e), "Invalid room_id");
    e.room_id = Some(ROOM.to_string());
    assert_eq!(rejected(&e), "Invalid producer_id");
    e.producer_id = Some("17".to_string());
    assert!(matches!(
        decode(&e),
        Decoded::Command(ClientCommand::MediaConsume { producer_id: 17, .. })
    ));
}

#[test]
fn join_names_what_is_wrong() {
    let mut e = envelope("media:join");
    assert!(matches!(decode(&e), Decoded::Command(ClientCommand::MediaJoin { room_id }) if room_id.to_hex() == ROOM));
    e.room_id = None;
    assert_eq!(rejected(&e), "Missing room_id");
    e.room_id = Some("zz".to_string());
    assert_eq!(rejected(&e), "Invalid room_id");
}

#[test]
fn typing_and_presence_without_their_field_are_dropped_silently() {
    for t in ["typing:start", "typing:stop"] {
        let mut e = envelope(t);
        e.room_id = None;
        assert!(matches!(decode(&e), Decoded::Ignore), "{t}");
        e.room_id = Some("bad".to_string());
        assert!(matches!(decode(&e), Decoded::Ignore), "{t}");
    }
    let mut presence = envelope("presence:update");
    assert!(matches!(decode(&presence), Decoded::Ignore));
    presence.presence = Some("busy".to_string());
    assert!(matches!(decode(&presence), Decoded::Command(ClientCommand::PresenceUpdate { presence }) if presence == "busy"));
}

#[test]
fn every_media_request_without_a_room_is_refused() {
    for t in [
        "media:join",
        "media:connect_transport",
        "media:produce",
        "media:consume",
        "media:producer_close",
        "media:leave",
        "media:transcript_toggle",
        "media:play_audio",
        "media:stop_audio",
    ] {
        let mut e = envelope(t);
        e.room_id = None;
        assert_eq!(rejected(&e), "Missing room_id", "{t}");
        e.room_id = Some("bad".to_string());
        e.transport_id = Some("1".to_string());
        e.dtls_parameters = Some("{}".to_string());
        e.kind = Some("audio".to_string());
        e.rtp_parameters = Some("{}".to_string());
        e.rtp_capabilities = Some("{}".to_string());
        e.producer_id = Some("1".to_string());
        e.file_id = Some(ROOM.to_string());
        e.playback_id = Some("p".to_string());
        assert_eq!(rejected(&e), "Invalid room_id", "{t}");
    }
}

#[test]
fn media_requests_without_data_are_refused() {
    for t in [
        "media:connect_transport",
        "media:produce",
        "media:consume",
        "media:producer_close",
        "media:transcript_toggle",
        "media:play_audio",
        "media:stop_audio",
    ] {
        let mut e = envelope(t);
        e.has_data = false;
        e.room_id = None;
        assert_eq!(rejected(&e), "Missing data", "{t}");
    }
}

#[test]
fn connect_transport_names_what_is_wrong() {
    let mut e = envelope("media:connect_transport");
    assert_eq!(rejected(&e), "Missing transport_id");
    e.transport_id = Some("four".to_string());
    assert_eq!(rejected(&e), "Invalid dtls_parameters");
    e.dtls_parameters = Some("{}".to_string());
    assert_eq!(rejected(&e), "Invalid transport_id");
    e.room_id = Some("nothex".to_string());
    assert_eq!(rejected(&e), "Invalid room_id");
    e.room_id = Some(ROOM.to_string());
    e.transport_id = Some("18446744073709551616".to_string());
    assert_eq!(rejected(&e), "Invalid transport_id");
    e.transport_id = Some("18446744073709551615".to_string());
    assert!(matches!(
        decode(&e),
        Decoded::Command(ClientCommand::MediaConnectTransport { transport_id: u64::MAX, .. })
    ));
}

#[test]
fn producer_close_names_what_is_wrong() {
    let mut e = envelope("media:producer_close");
    assert_eq!(rejected(&e), "Missing producer_id");
    e.producer_id = Some("-3".to_string());
    assert_eq!(rejected(&e), "Invalid producer_id");
    e.producer_id = Some("3".to_string());
    assert!(matches!(
        decode(&e),
        Decoded::Command(ClientCommand::MediaProducerClose { producer_id: 3, .. })
    ));
}

#[test]
fn play_and_stop_name_what_is_wrong() {
    let mut play = envelope("media:play_audio");
    assert_eq!(rejected(&play), "Missing file_id");
    play.file_id = Some("xyz".to_string());
    assert_eq!(rejected(&play), "Invalid file_id");
    play.file_id = Some(ROOM.to_string());
    assert!(matches!(decode(&play), Decoded::Command(ClientCommand::PlayAudio { .. })));

    let mut stop = envelope("media:stop_audio");
    assert_eq!(rejected(&stop), "Missing playback_id");
    stop.playback_id = Some("playback:1".to_string());
    assert!(matches!(
        decode(&stop),
        Decoded::Command(ClientCommand::StopAudio { playback_id, .. }) if playback_id == "playback:1"
    ));

    let toggle = envelope("media:transcript_toggle");
    assert!(matches!(
        decode(&toggle),
        Decoded::Command(ClientCommand::TranscriptToggle { enabled: false, .. })
    ));
}

#[test]
fn unknown_types_are_ignored() {
    assert!(matches!(decode(&envelope("")), Decoded::Ignore));
    assert!(matches!(decode(&envelope("media:dance")), Decoded::Ignore));
    assert!(matches!(decode(&envelope("PING")), Decoded::Ignore));
    assert!(matches!(decode(&envelope("ping")), Decoded::Command(ClientCommand::Ping)));
}

#[test]
fn well_formed_requests_are_read() {
    let mut e = envelope("typing:start");
    assert!(matches!(decode(&e), Decoded::Command(ClientCommand::Typing { start: true, room_text, .. }) if room_text == ROOM));
    e.msg_type = "typing:stop".to_string();
    assert!(matches!(decode(&e), Decoded::Command(ClientCommand::Typing { start: false, .. })));
    e.msg_type = "media:leave".to_string();
    assert!(matches!(decode(&e), Decoded::Command(ClientCommand::MediaLeave { .. })));
    e.msg_type = "media:connect_transport".to_string();
    e.transport_id = Some("4".to_string());
    e.dtls_parameters = Some("{\"role\":\"client\"}".to_string());
    assert!(matches!(
        decode(&e),
        Decoded::Command(ClientCommand::MediaConnectTransport { transport_id: 4, dtls_parameters, .. }) if dtls_parameters == "{\"role\":\"client\"}"
    ));
    e.transport_id = Some("four".to_string());
    assert_eq!(rejected(&e), "Invalid transport_id");
    e.msg_type = "media:producer_close".to_string();
    e.producer_id = Some("9".to_string());
    assert!(matches!(decode(&e), Decoded::Command(ClientCommand::MediaProducerClose { producer_id: 9, .. })));
    e.msg_type = "media:play_audio".to_string();
    e.file_id = Some("000000000000000000000abc".to_string());
    assert!(matches!(
        decode(&e),
        Decoded::Command(ClientCommand::PlayAudio { file_id, file_text, .. }) if file_id.value() == 0xabc && file_text == "000000000000000000000abc"
    ));
    e.msg_type = "media:stop_audio".to_string();
    e.playback_id = Some("file:x".to_string());
    assert!(matches!(decode(&e), Decoded::Command(ClientCommand::StopAudio { playback_id, .. }) if playback_id == "file:x"));
}

#[test]
fn transcript_toggle_defaults_to_off_and_knows_two_models() {
    let mut e = envelope("media:transcript_toggle");
    assert!(matches!(
        decode(&e),
        Decoded::Command(ClientCommand::TranscriptToggle { enabled: false, model: None, .. })
    ));
    e.enabled = Some(true);
    e.model = Some("canary".to_string());
    assert!(matches!(
        decode(&e),
        Decoded::Command(ClientCommand::TranscriptToggle { enabled: true, model: Some(m), .. }) if m == "canary"
    ));
    e.model = Some("whisper".to_string());
    assert!(matches!(decode(&e), Decoded::Command(ClientCommand::TranscriptToggle { model: Some(_), .. })));
    e.model = Some("parrot".to_string());
    assert!(matches!(decode(&e), Decoded::Command(ClientCommand::TranscriptToggle { model: None, .. })));
}

#[test]
fn media_kinds_are_lower_case() {
    assert_eq!(parse_kind("audio"), Some(MediaKind::Audio));
    assert_eq!(parse_kind("video"), Some(MediaKind::Video));
    assert_eq!(parse_kind("Audio"), None);
    assert_eq!(parse_kind(""), None);
}
