use roomler_core::config::TranscriptionConfig;
use roomler_core::dispatcher::resolve_targets;
use roomler_core::engine::TranscriptionEngine;
use roomler_core::events::{
    has_udp_and_tcp, Delivery, IceCandidate, IceProtocol, OutboundEvent, Target, TransportOptions,
};
use roomler_core::handler::{
    audio_playback_started, begin_media_join, begin_play_audio, consumer_created,
    fail_media_join, fallback_speaker_name, finish_media_join, greeting, handle_disconnect,
    handle_media_consume, handle_media_leave, handle_media_produce, handle_media_producer_close,
    handle_ping, handle_presence, handle_stop_audio, handle_transcript_toggle, handle_typing,
    play_audio_with, send_media_error, transcript_step, upload_path, BroadcastStep,
};
use roomler_core::ids::ObjectId;
use roomler_core::media::{
    router_codecs, rtp_tap_capacity, JoinState, MediaError, MediaKind, RoomManager,
};
use roomler_core::storage::WsStorage;
use roomler_core::transcript::TranscriptEvent;
use roomler_core::turn::TurnSettings;

fn oid(n: u128) -> ObjectId {
    ObjectId::from_value(n).unwrap()
}

fn connections(d: &Delivery) -> Vec<String> {
    d.targets
        .iter()
        .map(|t| match t {
            Target::Connection(c) => c.clone(),
            Target::User(u) => format!("user:{}", u.to_hex()),
        })
        .collect()
}

fn candidate(protocol: IceProtocol, tcp_passive: bool) -> IceCandidate {
    IceCandidate { protocol, tcp_passive, ip: "203.0.113.7".to_string(), port: 40000, wire: "{}".to_string() }
}

fn transport(id: u64, candidates: Vec<IceCandidate>) -> TransportOptions {
    TransportOptions {
        id,
        ice_parameters: "{\"usernameFragment\":\"u\"}".to_string(),
        ice_candidates: candidates,
        dtls_parameters: "{}".to_string(),
    }
}

fn both() -> Vec<IceCandidate> {
    vec![candidate(IceProtocol::Udp, false), candidate(IceProtocol::Tcp, true)]
}

fn no_turn() -> TurnSettings {
    TurnSettings { url: None, shared_secret: None, username: None, password: None, force_relay: None }
}

/// A room with the given connections, each with both transports connected.
fn call(room: ObjectId, members: &[(&str, ObjectId)]) -> RoomManager {
    let mut rooms = RoomManager::new();
    assert!(rooms.create_room(room));
    for (connection, user) in members {
        let pair = rooms.create_transports(&room, *user, connection).unwrap();
        assert_eq!(rooms.connect_transport(&room, connection, pair.send_id), Ok(true));
        assert_eq!(rooms.connect_transport(&room, connection, pair.recv_id), Ok(true));
    }
    rooms
}

#[test]
fn create_room_is_idempotent() {
    let mut rooms = RoomManager::new();
    let room = oid(1);
    assert!(!rooms.has_room(&room));
    assert!(rooms.create_room(room));
    rooms.create_transports(&room, oid(9), "c1").unwrap();
    assert!(!rooms.create_room(room));
    assert_eq!(rooms.get_other_connection_ids(&room, ""), vec!["c1".to_string()]);
    assert!(rooms.remove_room(&room));
    assert!(!rooms.remove_room(&room));
    assert!(!rooms.has_room(&room));
    assert!(rooms.create_room(room));
    assert!(rooms.get_other_connection_ids(&room, "").is_empty());
}

#[test]
fn create_transports_needs_the_room() {
    let mut rooms = RoomManager::new();
    assert_eq!(rooms.create_transports(&oid(1), oid(2), "c1"), Err(MediaError::RoomMissing));
}

#[test]
fn create_transports_twice_gives_distinct_transports() {
    let mut rooms = RoomManager::new();
    let room = oid(1);
    rooms.create_room(room);
    let first = rooms.create_transports(&room, oid(2), "c1").unwrap();
    assert_eq!((first.replaced_send, first.replaced_recv), (None, None));
    assert_ne!(first.send_id, first.recv_id);
    let second = rooms.create_transports(&room, oid(2), "c1").unwrap();
    assert_ne!(second.send_id, first.send_id);
    assert_ne!(second.recv_id, first.recv_id);
    assert_eq!(second.replaced_send, Some(first.send_id));
    assert_eq!(second.replaced_recv, Some(first.recv_id));
    assert_eq!(rooms.get_participant_user_ids(&room), vec![oid(2)]);
    assert_eq!(rooms.connect_transport(&room, "c1", first.send_id), Err(MediaError::TransportMissing));
    let other_tab = rooms.create_transports(&room, oid(2), "c2").unwrap();
    assert_eq!(other_tab.replaced_send, None);
    assert_eq!(rooms.get_participant_user_ids(&room), vec![oid(2), oid(2)]);
}

#[test]
fn dtls_parameters_are_applied_once() {
    let mut rooms = RoomManager::new();
    let room = oid(1);
    rooms.create_room(room);
    assert_eq!(rooms.join_state(&room, "c1"), JoinState::Fresh);
    let pair = rooms.create_transports(&room, oid(2), "c1").unwrap();
    assert_eq!(rooms.join_state(&room, "c1"), JoinState::TransportsCreated);
    assert_eq!(rooms.connect_transport(&room, "c1", pair.send_id), Ok(true));
    assert_eq!(rooms.join_state(&room, "c1"), JoinState::SendConnected);
    assert_eq!(rooms.connect_transport(&room, "c1", pair.send_id), Ok(false));
    assert_eq!(rooms.connect_transport(&room, "c1", pair.recv_id), Ok(true));
    assert_eq!(rooms.join_state(&room, "c1"), JoinState::Ready);
    assert_eq!(rooms.join_state(&oid(5), "c1"), JoinState::Fresh);
    assert_eq!(rooms.connect_transport(&room, "c1", 999), Err(MediaError::TransportMissing));
    assert_eq!(rooms.connect_transport(&room, "c9", pair.send_id), Err(MediaError::TransportMissing));
    assert_eq!(rooms.connect_transport(&oid(5), "c1", pair.send_id), Err(MediaError::RoomMissing));
}

#[test]
fn producing_needs_a_connected_send_transport() {
    let mut rooms = RoomManager::new();
    let room = oid(1);
    assert_eq!(rooms.produce(&room, "c1", MediaKind::Audio, None), Err(MediaError::RoomMissing));
    rooms.create_room(room);
    assert_eq!(rooms.produce(&room, "c1", MediaKind::Audio, None), Err(MediaError::TransportMissing));
    let pair = rooms.create_transports(&room, oid(2), "c1").unwrap();
    assert_eq!(rooms.produce(&room, "c1", MediaKind::Audio, None), Err(MediaError::TransportNotConnected));
    rooms.connect_transport(&room, "c1", pair.recv_id).unwrap();
    assert_eq!(rooms.produce(&room, "c1", MediaKind::Audio, None), Err(MediaError::TransportNotConnected));
    rooms.connect_transport(&room, "c1", pair.send_id).unwrap();
    let audio = rooms.produce(&room, "c1", MediaKind::Audio, None).unwrap();
    let video = rooms.produce(&room, "c1", MediaKind::Video, None).unwrap();
    let screen = rooms.produce(&room, "c1", MediaKind::Video, Some("screen".to_string())).unwrap();
    assert!(audio != video && video != screen && audio != screen);
    let seen = rooms.producers_visible_to(&room, "other");
    let sources: Vec<(u64, &str)> = seen.iter().map(|p| (p.producer_id, p.source.as_str())).collect();
    assert_eq!(sources, vec![(audio, "audio"), (video, "camera"), (screen, "screen")]);
    assert!(rooms.producers_visible_to(&room, "c1").is_empty());
    assert!(rooms.producers_visible_to(&oid(7), "c1").is_empty());
}

#[test]
fn consuming_needs_a_connected_receive_transport_and_a_codec() {
    let room = oid(1);
    let mut rooms = call(room, &[("c1", oid(2))]);
    let producer = rooms.produce(&room, "c1", MediaKind::Video, None).unwrap();
    assert_eq!(rooms.consume(&oid(9), "c2", producer, true), Err(MediaError::RoomMissing));
    assert_eq!(rooms.consume(&room, "c2", producer, true), Err(MediaError::TransportMissing));
    let pair = rooms.create_transports(&room, oid(3), "c2").unwrap();
    assert_eq!(rooms.consume(&room, "c2", producer, true), Err(MediaError::TransportNotConnected));
    rooms.connect_transport(&room, "c2", pair.recv_id).unwrap();
    assert_eq!(rooms.consume(&room, "c2", 12345, true), Err(MediaError::ProducerMissing));
    assert_eq!(rooms.consume(&room, "c2", producer, false), Err(MediaError::Incompatible));
    let consumer = rooms.consume(&room, "c2", producer, true).unwrap();
    assert_eq!(consumer.producer_id, producer);
    assert_eq!(consumer.kind, MediaKind::Video);
    assert_ne!(consumer.id, producer);
}

#[test]
fn closing_a_producer_takes_its_tap_along() {
    let room = oid(1);
    let mut rooms = call(room, &[("c1", oid(2)), ("c2", oid(3))]);
    let producer = rooms.produce(&room, "c1", MediaKind::Audio, None).unwrap();
    assert_eq!(rooms.create_rtp_tap(&room, 999).map(|t| t.id), Err(MediaError::ProducerMissing));
    assert_eq!(rooms.create_rtp_tap(&oid(8), producer).map(|t| t.id), Err(MediaError::RoomMissing));
    let first = rooms.create_rtp_tap(&room, producer).unwrap();
    assert_eq!(first.replaced, None);
    let second = rooms.create_rtp_tap(&room, producer).unwrap();
    assert_eq!(second.replaced, Some(first.id));
    assert_ne!(second.id, first.id);
    assert!(!rooms.close_producer(&room, "c2", producer));
    assert!(!rooms.close_producer(&room, "c1", 999));
    assert!(rooms.close_producer(&room, "c1", producer));
    assert!(!rooms.close_producer(&room, "c1", producer));
    assert_eq!(rooms.remove_rtp_tap(&room, producer), None);
    let again = rooms.produce(&room, "c1", MediaKind::Audio, None).unwrap();
    let tap = rooms.create_rtp_tap(&room, again).unwrap();
    assert_eq!(rooms.remove_rtp_tap(&room, again), Some(tap.id));
    assert_eq!(rooms.remove_rtp_tap(&room, again), None);
}

#[test]
fn closing_a_participant_removes_what_it_holds() {
    let room = oid(1);
    let mut rooms = call(room, &[("c1", oid(2)), ("c2", oid(3))]);
    let audio = rooms.produce(&room, "c1", MediaKind::Audio, None).unwrap();
    let video = rooms.produce(&room, "c1", MediaKind::Video, None).unwrap();
    rooms.consume(&room, "c2", audio, true).unwrap();
    assert_eq!(rooms.get_connection_room("c1"), Some(room));
    let closed = rooms.close_participant(&room, "c1").unwrap();
    assert_eq!(closed.connection_id, "c1");
    assert_eq!(closed.user_id, oid(2));
    let ids: Vec<u64> = closed.producers.iter().map(|p| p.id).collect();
    assert_eq!(ids, vec![audio, video]);
    assert!(rooms.close_participant(&room, "c1").is_none());
    assert_eq!(rooms.get_connection_room("c1"), None);
    assert_eq!(rooms.get_connection_room("c2"), Some(room));
    assert!(rooms.producers_visible_to(&room, "c2").is_empty());
    assert_eq!(rooms.consume(&room, "c2", audio, true), Err(MediaError::ProducerMissing));
    assert_eq!(rooms.get_participant_user_ids(&room), vec![oid(3)]);
    assert_eq!(rooms.join_state(&room, "c1"), JoinState::Fresh);
    assert_eq!(rooms.join_state(&room, "c2"), JoinState::Ready);
}

#[test]
fn peers_never_include_the_connection_itself() {
    let room = oid(1);
    let u = oid(2);
    let rooms = call(room, &[("c1", u), ("c2", u), ("c3", oid(3))]);
    assert_eq!(rooms.get_other_connection_ids(&room, "c2"), vec!["c1".to_string(), "c3".to_string()]);
    assert_eq!(rooms.get_other_connection_ids(&room, "c9").len(), 3);
    assert!(rooms.get_other_connection_ids(&oid(5), "c1").is_empty());
}

#[test]
fn connection_isolation_on_leave() {
    // U holds C1 and C2 in the call of R; C2 leaves.
    let room = oid(0x42);
    let u = oid(7);
    let mut rooms = call(room, &[("C1", u), ("C2", u)]);
    let outcome = handle_media_leave(&mut rooms, u, "C2", &room);
    assert_eq!(outcome.closed.unwrap().connection_id, "C2");
    assert_eq!(outcome.deliveries.len(), 1);
    let delivery = &outcome.deliveries[0];
    assert_eq!(connections(delivery), vec!["C1".to_string()]);
    match &delivery.event {
        OutboundEvent::PeerLeft { user_id, connection_id, room_id } => {
            assert_eq!(*user_id, u);
            assert_eq!(connection_id, "C2");
            assert_eq!(*room_id, room);
        }
        other => panic!("{other:?}"),
    }
    assert_eq!(delivery.event.event_type(), "media:peer_left");
    assert_eq!(rooms.get_other_connection_ids(&room, ""), vec!["C1".to_string()]);
    // the last one out tells nobody
    let last = handle_media_leave(&mut rooms, u, "C1", &room);
    assert!(last.deliveries.is_empty());
}

#[test]
fn disconnect_cleanup_tells_each_survivor_once() {
    let room = oid(0x42);
    let u = oid(7);
    let mut rooms = call(room, &[("C1", u), ("C2", u), ("C3", u)]);
    let mut storage = WsStorage::new();
    storage.add(u, "C1".to_string(), 1);
    storage.add(u, "C2".to_string(), 2);
    storage.add(u, "C3".to_string(), 3);
    let mut engine = Some(TranscriptionEngine::new(
        vec!["whisper".to_string()],
        "whisper".to_string(),
        TranscriptionConfig::default(),
    ));
    let start = play_audio_with(engine.as_mut().unwrap(), "C2", &room, "one");
    let worker = start.playback.unwrap().1;
    let outcome = handle_disconnect(&mut storage, &mut engine, &mut rooms, u, "C2");
    assert!(outcome.unregistered);
    assert_eq!(outcome.stopped_playbacks, vec![worker.handle]);
    assert_eq!(outcome.closed.unwrap().connection_id, "C2");
    assert_eq!(outcome.deliveries.len(), 1);
    assert_eq!(connections(&outcome.deliveries[0]), vec!["C1".to_string(), "C3".to_string()]);
    assert!(matches!(
        &outcome.deliveries[0].event,
        OutboundEvent::PeerLeft { connection_id, .. } if connection_id == "C2"
    ));
    assert_eq!(storage.get_senders(&u), vec![1, 3]);
    assert_eq!(engine.as_ref().unwrap().active_pipeline_count(), 0);
    // a connection outside any call is unregistered and nothing else
    let mut no_engine = None;
    storage.add(oid(8), "C9".to_string(), 9);
    let quiet = handle_disconnect(&mut storage, &mut no_engine, &mut rooms, oid(8), "C9");
    assert!(quiet.unregistered && quiet.closed.is_none() && quiet.deliveries.is_empty());
    let unknown = handle_disconnect(&mut storage, &mut no_engine, &mut rooms, oid(8), "C9");
    assert!(!unknown.unregistered);
}

#[test]
fn joining_needs_the_room() {
    let mut rooms = RoomManager::new();
    let err = begin_media_join(&mut rooms, oid(1), "c1", &oid(2)).unwrap_err();
    assert_eq!(err.targets.len(), 1);
    assert!(matches!(&err.targets[0], Target::User(u) if *u == oid(1)));
    assert!(matches!(&err.event, OutboundEvent::MediaError { message } if message == "Room does not exist"));
    assert_eq!(err.event.event_type(), "media:error");
}

#[test]
fn a_joiner_gets_capabilities_transports_and_the_producers_of_others() {
    let room = oid(1);
    let mut rooms = call(room, &[("c1", oid(2))]);
    let audio = rooms.produce(&room, "c1", MediaKind::Audio, None).unwrap();
    let screen = rooms.produce(&room, "c1", MediaKind::Video, Some("screen".to_string())).unwrap();
    let pair = begin_media_join(&mut rooms, oid(3), "c2", &room).unwrap();
    let outcome = finish_media_join(
        &mut rooms,
        &no_turn(),
        1_700_000_000,
        oid(3),
        "c2",
        &room,
        Some("{\"codecs\":[]}".to_string()),
        transport(pair.send_id, both()),
        transport(pair.recv_id, both()),
    );
    assert!(outcome.joined);
    let types: Vec<&str> = outcome.deliveries.iter().map(|d| d.event.event_type()).collect();
    assert_eq!(
        types,
        vec![
            "media:router_capabilities",
            "media:transport_created",
            "media:new_producer",
            "media:new_producer"
        ]
    );
    assert!(outcome.deliveries.iter().all(|d| connections(d) == vec!["c2".to_string()]));
    match &outcome.deliveries[1].event {
        OutboundEvent::TransportCreated { send_transport, recv_transport, ice_servers, force_relay } => {
            assert_eq!(send_transport.id, pair.send_id);
            assert_eq!(recv_transport.id, pair.recv_id);
            assert!(has_udp_and_tcp(&send_transport.ice_candidates));
            assert!(has_udp_and_tcp(&recv_transport.ice_candidates));
            assert!(ice_servers.is_empty());
            assert!(!force_relay);
        }
        other => panic!("{other:?}"),
    }
    match &outcome.deliveries[2].event {
        OutboundEvent::NewProducer { producer_id, user_id, connection_id, kind, source } => {
            assert_eq!((*producer_id, *user_id, connection_id.as_str()), (audio, oid(2), "c1"));
            assert_eq!((*kind, source.as_str()), (MediaKind::Audio, "audio"));
        }
        other => panic!("{other:?}"),
    }
    assert!(matches!(
        &outcome.deliveries[3].event,
        OutboundEvent::NewProducer { producer_id, source, .. } if *producer_id == screen && source == "screen"
    ));
}

#[test]
fn a_transport_without_udp_or_passive_tcp_fails_the_join() {
    let room = oid(1);
    for bad in [
        vec![candidate(IceProtocol::Udp, false)],
        vec![candidate(IceProtocol::Tcp, true)],
        vec![candidate(IceProtocol::Udp, false), candidate(IceProtocol::Tcp, false)],
        Vec::new(),
    ] {
        let mut rooms = call(room, &[]);
        let pair = begin_media_join(&mut rooms, oid(3), "c2", &room).unwrap();
        let outcome = finish_media_join(
            &mut rooms,
            &no_turn(),
            0,
            oid(3),
            "c2",
            &room,
            None,
            transport(pair.send_id, both()),
            transport(pair.recv_id, bad),
        );
        assert!(!outcome.joined);
        assert_eq!(outcome.deliveries.len(), 1);
        assert!(matches!(
            &outcome.deliveries[0].event,
            OutboundEvent::MediaError { message } if message == "Failed to create transports: ICE candidates incomplete"
        ));
        assert_eq!(rooms.get_connection_room("c2"), None);
    }
    let mut rooms = call(room, &[]);
    begin_media_join(&mut rooms, oid(3), "c2", &room).unwrap();
    let told = fail_media_join(&mut rooms, oid(3), "c2", &room, "worker died");
    assert!(matches!(
        &told.event,
        OutboundEvent::MediaError { message } if message == "Failed to create transports: worker died"
    ));
    assert_eq!(rooms.get_connection_room("c2"), None);
}

#[test]
fn producing_tells_the_peers_and_not_the_producer() {
    let room = oid(1);
    let u = oid(2);
    let mut rooms = call(room, &[("c1", u), ("c2", u), ("c3", oid(3))]);
    let mut engine = TranscriptionEngine::new(Vec::new(), "whisper".to_string(), TranscriptionConfig::default());
    engine.enable_room(room, "whisper".to_string());
    let engine = Some(engine);
    let outcome = handle_media_produce(&mut rooms, &engine, u, "c1", &room, MediaKind::Audio, "audio".to_string());
    let id = outcome.producer_id.unwrap();
    assert!(outcome.transcribe);
    assert_eq!(outcome.deliveries.len(), 2);
    assert_eq!(connections(&outcome.deliveries[0]), vec!["c1".to_string()]);
    assert!(matches!(&outcome.deliveries[0].event, OutboundEvent::ProduceResult { id: told } if *told == id));
    assert_eq!(connections(&outcome.deliveries[1]), vec!["c2".to_string(), "c3".to_string()]);
    assert!(matches!(
        &outcome.deliveries[1].event,
        OutboundEvent::NewProducer { producer_id, connection_id, .. } if *producer_id == id && connection_id == "c1"
    ));
    let video = handle_media_produce(&mut rooms, &engine, u, "c1", &room, MediaKind::Video, "camera".to_string());
    assert!(!video.transcribe);
    let none = handle_media_produce(&mut rooms, &None, u, "c1", &room, MediaKind::Audio, "audio".to_string());
    assert!(!none.transcribe && none.producer_id.is_some());
    let refused = handle_media_produce(&mut rooms, &engine, u, "c9", &room, MediaKind::Audio, "audio".to_string());
    assert!(refused.producer_id.is_none());
    assert_eq!(refused.deliveries.len(), 1);
    assert!(matches!(
        &refused.deliveries[0].event,
        OutboundEvent::MediaError { message } if message == "produce failed: Transport missing"
    ));
    assert!(matches!(&refused.deliveries[0].targets[0], Target::User(who) if *who == u));
}

#[test]
fn consume_errors_go_to_the_user() {
    let room = oid(1);
    let mut rooms = call(room, &[("c1", oid(2)), ("c2", oid(3))]);
    let producer = rooms.produce(&room, "c1", MediaKind::Audio, None).unwrap();
    let consumer = handle_media_consume(&mut rooms, oid(3), "c2", &room, producer, true).unwrap();
    let told = consumer_created("c2", consumer, "{\"codecs\":[]}".to_string());
    assert_eq!(connections(&told), vec!["c2".to_string()]);
    assert!(matches!(
        &told.event,
        OutboundEvent::ConsumerCreated { id, producer_id, kind, rtp_parameters }
            if *id == consumer.id && *producer_id == producer && *kind == MediaKind::Audio && rtp_parameters == "{\"codecs\":[]}"
    ));
    for (producer_id, compatible, message) in [
        (producer, false, "consume failed: Incompatible capabilities"),
        (777, true, "consume failed: Producer not found"),
    ] {
        let refused = handle_media_consume(&mut rooms, oid(3), "c2", &room, producer_id, compatible).unwrap_err();
        assert!(matches!(&refused.event, OutboundEvent::MediaError { message: m } if m == message));
    }
    let refused = handle_media_consume(&mut rooms, oid(3), "c2", &oid(9), producer, true).unwrap_err();
    assert!(matches!(&refused.event, OutboundEvent::MediaError { message } if message == "consume failed: Room does not exist"));
}

#[test]
fn closing_a_producer_stops_its_worker_and_tells_the_peers() {
    let room = oid(1);
    let mut rooms = call(room, &[("c1", oid(2)), ("c2", oid(3))]);
    let producer = rooms.produce(&room, "c1", MediaKind::Audio, None).unwrap();
    let mut engine = Some(TranscriptionEngine::new(
        vec!["whisper".to_string()],
        "whisper".to_string(),
        TranscriptionConfig::default(),
    ));
    let started = engine.as_mut().unwrap().start_pipeline(&room, &producer.to_string());
    let handle = started.started.unwrap().handle;
    let not_mine = handle_media_producer_close(&mut rooms, &mut engine, oid(3), "c2", &room, producer);
    assert!(!not_mine.closed && not_mine.deliveries.is_empty() && not_mine.stopped_worker.is_none());
    let outcome = handle_media_producer_close(&mut rooms, &mut engine, oid(2), "c1", &room, producer);
    assert!(outcome.closed);
    assert_eq!(outcome.stopped_worker, Some(handle));
    assert_eq!(outcome.deliveries.len(), 1);
    assert_eq!(connections(&outcome.deliveries[0]), vec!["c2".to_string()]);
    assert!(matches!(
        &outcome.deliveries[0].event,
        OutboundEvent::ProducerClosed { producer_id, user_id } if *producer_id == producer && *user_id == oid(2)
    ));
    assert_eq!(engine.as_ref().unwrap().active_pipeline_count(), 0);
}

#[test]
fn toggling_transcription_tells_the_room_and_plans_the_pipelines() {
    let room = oid(1);
    let mut rooms = call(room, &[("c1", oid(2)), ("c2", oid(3))]);
    let audio = rooms.produce(&room, "c1", MediaKind::Audio, None).unwrap();
    rooms.produce(&room, "c2", MediaKind::Video, None).unwrap();
    let mut engine = Some(TranscriptionEngine::new(
        vec!["whisper".to_string(), "canary".to_string()],
        "whisper".to_string(),
        TranscriptionConfig::default(),
    ));
    let on = handle_transcript_toggle(&rooms, &mut engine, "c2", &room, "r", true, Some("canary".to_string()));
    assert!(on.spawn_broadcast && on.stopped.is_empty());
    let planned: Vec<u64> = on.start_for.iter().map(|p| p.producer_id).collect();
    assert_eq!(planned, vec![audio]);
    assert_eq!(on.deliveries.len(), 1);
    assert_eq!(connections(&on.deliveries[0]), vec!["c2".to_string(), "c1".to_string()]);
    assert!(matches!(
        &on.deliveries[0].event,
        OutboundEvent::TranscriptStatus { room_id, enabled: true, model: Some(m) } if room_id == "r" && m == "canary"
    ));
    assert_eq!(engine.as_ref().unwrap().get_backend(&room).as_deref(), Some("canary"));
    let again = handle_transcript_toggle(&rooms, &mut engine, "c2", &room, "r", true, None);
    assert!(!again.spawn_broadcast);
    assert_eq!(engine.as_ref().unwrap().get_backend(&room).as_deref(), Some("whisper"));
    engine.as_mut().unwrap().start_pipeline(&room, &audio.to_string());
    let off = handle_transcript_toggle(&rooms, &mut engine, "c1", &room, "r", false, None);
    assert_eq!(off.stopped.len(), 1);
    assert!(off.start_for.is_empty() && !off.spawn_broadcast);
    assert!(!engine.as_ref().unwrap().is_enabled(&room));
    let mut none = None;
    let ui_only = handle_transcript_toggle(&rooms, &mut none, "c1", &room, "r", true, None);
    assert!(ui_only.start_for.is_empty() && !ui_only.spawn_broadcast);
    assert_eq!(ui_only.deliveries.len(), 1);
}

#[test]
fn playing_a_file_enables_tracks_and_announces() {
    let room = oid(1);
    let rooms = call(room, &[("c1", oid(2)), ("c2", oid(3))]);
    let mut engine = TranscriptionEngine::new(
        vec!["whisper".to_string()],
        "whisper".to_string(),
        TranscriptionConfig::default(),
    );
    let start = play_audio_with(&mut engine, "c1", &room, "xyz");
    let (id, worker) = start.playback.unwrap();
    assert_eq!(id, "file:000000000000000000000001:xyz");
    assert_eq!(worker.backend, "whisper");
    assert!(start.spawn_broadcast);
    assert!(engine.is_enabled(&room));
    let second = begin_play_audio(&mut engine, "c1", &room);
    assert!(!second.spawn_broadcast);
    assert!(second.playback.is_some());
    assert_eq!(engine.stop_connection_playbacks("c1").len(), 2);

    let told = audio_playback_started(&rooms, "c1", &room, "r1", &oid(0xaa), &oid(0xbb), "f1", "talk.wav", &id);
    assert_eq!(connections(&told), vec!["c1".to_string(), "c2".to_string()]);
    match &told.event {
        OutboundEvent::AudioPlaybackStart { file_url, file_id, filename, playback_id, room_id } => {
            assert_eq!(
                file_url,
                "/api/tenant/0000000000000000000000aa/file/0000000000000000000000bb/download"
            );
            assert_eq!((file_id.as_str(), filename.as_str(), room_id.as_str()), ("f1", "talk.wav", "r1"));
            assert_eq!(playback_id, &id);
        }
        other => panic!("{other:?}"),
    }
    let mut engine = Some(engine);
    let (third, third_worker) = engine.as_mut().unwrap().begin_file_playback(&room, "k").unwrap();
    let stop = handle_stop_audio(&rooms, &mut engine, "c2", &room, "r1", &third);
    assert_eq!(stop.stopped_worker, Some(third_worker.handle));
    assert_eq!(connections(&stop.delivery), vec!["c2".to_string(), "c1".to_string()]);
    assert!(matches!(&stop.delivery.event, OutboundEvent::AudioPlaybackStop { playback_id, .. } if *playback_id == third));
    assert_eq!(upload_path("/tmp/uploads", "ab/cd.wav"), "/tmp/uploads/ab/cd.wav");
    assert_eq!(fallback_speaker_name(&oid(0x0123456789abcdef01234567)), "01234567");
}

fn transcript(room: ObjectId, text: &str) -> TranscriptEvent {
    TranscriptEvent {
        room_id: room,
        user_id: oid(2),
        speaker_name: "Ada".to_string(),
        text: text.to_string(),
        language: None,
        confidence_ppm: None,
        start_ms: 0,
        end_ms: 10,
        inference_duration_ms: 1,
        is_final: true,
        segment_id: "s".to_string(),
    }
}

#[test]
fn the_broadcast_task_filters_by_room_and_stops_when_disabled() {
    let room = oid(1);
    let rooms = call(room, &[("c1", oid(2)), ("c2", oid(3))]);
    let mut engine = TranscriptionEngine::new(Vec::new(), "w".to_string(), TranscriptionConfig::default());
    assert!(matches!(transcript_step(&rooms, &engine, &room, transcript(oid(9), "x")), BroadcastStep::Skip));
    assert!(matches!(transcript_step(&rooms, &engine, &room, transcript(room, "x")), BroadcastStep::Stop));
    engine.enable_room(room, "w".to_string());
    match transcript_step(&rooms, &engine, &room, transcript(room, "hello")) {
        BroadcastStep::Deliver(d) => {
            assert_eq!(connections(&d), vec!["c1".to_string(), "c2".to_string()]);
            assert_eq!(d.event.event_type(), "media:transcript");
            assert!(matches!(&d.event, OutboundEvent::Transcript { event } if event.text == "hello"));
        }
        other => panic!("{other:?}"),
    }
}

#[test]
fn small_events_go_where_they_should() {
    assert!(matches!(greeting(oid(1)), OutboundEvent::Connected { user_id } if user_id == oid(1)));
    assert_eq!(greeting(oid(1)).event_type(), "connected");
    let pong = handle_ping(oid(1));
    assert_eq!(pong.len(), 1);
    assert_eq!(pong[0].event.event_type(), "pong");
    assert!(matches!(&pong[0].targets[0], Target::User(u) if *u == oid(1)));
    let typing = handle_typing(true, "room", oid(1), &vec![oid(1), oid(2), oid(3)]);
    assert_eq!(typing.len(), 1);
    assert_eq!(typing[0].event.event_type(), "typing:start");
    assert_eq!(connections(&typing[0]).len(), 2);
    assert!(!typing[0].targets.iter().any(|t| matches!(t, Target::User(u) if *u == oid(1))));
    assert_eq!(handle_typing(false, "room", oid(1), &Vec::new())[0].event.event_type(), "typing:stop");
    let mut storage = WsStorage::new();
    storage.add(oid(1), "A1".to_string(), 1);
    storage.add(oid(2), "B1".to_string(), 2);
    let presence = handle_presence(&storage, oid(1), "A1", "away");
    assert_eq!(connections(&presence[0]), vec!["B1".to_string()]);
    assert!(matches!(&presence[0].event, OutboundEvent::PresenceUpdate { presence, .. } if presence == "away"));
    let error = send_media_error(oid(4), "Missing room_id");
    assert!(matches!(&error.event, OutboundEvent::MediaError { message } if message == "Missing room_id"));
}

#[test]
fn presence_reaches_every_connection_but_its_origin() {
    let mut storage = WsStorage::new();
    let u = oid(1);
    storage.add(u, "U-tab-1".to_string(), 11);
    storage.add(u, "U-tab-2".to_string(), 12);
    storage.add(u, "U-phone".to_string(), 13);
    storage.add(oid(2), "V-tab".to_string(), 21);
    storage.add(oid(3), "W-tab".to_string(), 31);
    let sent = handle_presence(&storage, u, "U-tab-2", "busy");
    assert_eq!(sent.len(), 1);
    assert!(matches!(
        &sent[0].event,
        OutboundEvent::PresenceUpdate { user_id, presence } if *user_id == u && presence == "busy"
    ));
    assert!(sent[0].targets.iter().all(|t| matches!(t, Target::Connection(_))));
    let mut reached = connections(&sent[0]);
    reached.sort();
    assert_eq!(reached, vec!["U-phone", "U-tab-1", "V-tab", "W-tab"]);
    // each sink is written once, and the origin's never
    let mut sinks = resolve_targets(&storage, &sent[0].targets);
    sinks.sort();
    assert_eq!(sinks, vec![11, 13, 21, 31]);
    // a sender that is alone reaches nobody
    let mut alone = WsStorage::new();
    alone.add(u, "only".to_string(), 1);
    assert!(handle_presence(&alone, u, "only", "away")[0].targets.is_empty());
    // an origin that is not registered is left out all the same
    let mut all = connections(&handle_presence(&alone, u, "gone", "away")[0]);
    all.sort();
    assert_eq!(all, vec!["only"]);
    let mut others = storage.connections_except("W-tab");
    others.sort();
    assert_eq!(others, vec!["U-phone", "U-tab-1", "U-tab-2", "V-tab"]);
    assert_eq!(storage.connection_count(), 5);
}

#[test]
fn disconnect_without_an_engine_stops_nothing() {
    let room = oid(0x51);
    let u = oid(7);
    let mut rooms = call(room, &[("C1", u), ("C2", oid(8))]);
    let mut storage = WsStorage::new();
    storage.add(u, "C1".to_string(), 1);
    storage.add(oid(8), "C2".to_string(), 2);
    let mut no_engine = None;
    let outcome = handle_disconnect(&mut storage, &mut no_engine, &mut rooms, u, "C1");
    assert!(outcome.unregistered);
    assert!(outcome.stopped_playbacks.is_empty());
    let closed = outcome.closed.unwrap();
    assert_eq!(closed.connection_id, "C1");
    assert_eq!(closed.user_id, u);
    assert_eq!(connections(&outcome.deliveries[0]), vec!["C2".to_string()]);
    assert_eq!(storage.connection_count(), 1);
    assert_eq!(rooms.get_connection_room("C1"), None);
}

#[test]
fn disconnect_stops_the_playbacks_in_starting_order() {
    let room = oid(0x52);
    let u = oid(7);
    let mut rooms = call(room, &[("C1", u)]);
    let mut storage = WsStorage::new();
    storage.add(u, "C1".to_string(), 1);
    let mut engine = Some(TranscriptionEngine::new(
        vec!["whisper".to_string()],
        "whisper".to_string(),
        TranscriptionConfig::default(),
    ));
    let first = play_audio_with(engine.as_mut().unwrap(), "C1", &room, "one").playback.unwrap().1;
    let (second_id, second) =
        play_audio_with(engine.as_mut().unwrap(), "C1", &room, "two").playback.unwrap();
    let third = play_audio_with(engine.as_mut().unwrap(), "C1", &room, "three").playback.unwrap().1;
    assert_eq!(engine.as_ref().unwrap().active_pipeline_count(), 3);
    // one of them ended by itself before the connection closed
    assert_eq!(engine.as_mut().unwrap().stop_pipeline(&second_id), Some(second.handle));
    assert_eq!(engine.as_ref().unwrap().active_pipeline_count(), 2);
    let outcome = handle_disconnect(&mut storage, &mut engine, &mut rooms, u, "C1");
    assert_eq!(outcome.stopped_playbacks, vec![first.handle, third.handle]);
    assert_eq!(engine.as_ref().unwrap().active_pipeline_count(), 0);
    assert!(outcome.closed.is_some());
    assert!(outcome.deliveries.is_empty());
}

#[test]
fn routers_offer_opus_and_vp8() {
    let codecs = router_codecs();
    assert!(codecs.iter().any(|c| c.kind == MediaKind::Audio && c.mime_type == "audio/opus" && c.clock_rate == 48000 && c.channels == 2));
    assert!(codecs.iter().any(|c| c.kind == MediaKind::Video && c.mime_type == "video/VP8" && c.clock_rate == 90000));
    assert_eq!(rtp_tap_capacity(20), 10);
    assert_eq!(rtp_tap_capacity(60), 3);
    assert_eq!(rtp_tap_capacity(200), 1);
    assert_eq!(rtp_tap_capacity(201), 1);
    assert_eq!(rtp_tap_capacity(0), 1);
}
