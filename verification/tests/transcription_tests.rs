use roomler_core::config::TranscriptionConfig;
use roomler_core::engine::{
    distinct_names, key_belongs_to_room, playback_key, worker_key, TranscriptionEngine,
};
use roomler_core::file_playback::{full_chunks, run_vad, whole_file_segment, FilePlayback, SpeechEnd};
use roomler_core::ids::ObjectId;
use roomler_core::ingest::{
    AudioClock, Detected, Ingestion, PacketStep, VadInput, SAMPLES_PER_MS,
};
use roomler_core::rtp::{concealment_count, RtpPacket};
use roomler_core::transcript::{
    is_hallucination, publishable_text, segment_id, transcript_for, transcript_for_stream,
    SpeechSegment, StreamingResult, TranscriptionResult,
};

fn oid(n: u128) -> ObjectId {
    ObjectId::from_value(n).unwrap()
}

fn rtp(seq: u16, payload: &[u8]) -> Vec<u8> {
    let mut data = vec![0x80, 111, (seq >> 8) as u8, (seq & 0xff) as u8, 0, 0, 3, 0xc0, 0, 0, 0, 7];
    data.extend_from_slice(payload);
    data
}

#[test]
fn segment_id_is_room_user_and_start_in_seconds() {
    assert_eq!(
        segment_id(&oid(0xab), &oid(1), 12345),
        "0000000000000000000000ab:000000000000000000000001:12.345"
    );
    assert_eq!(
        segment_id(&oid(0), &oid(0), 0),
        "000000000000000000000000:000000000000000000000000:0.000"
    );
    assert_eq!(
        segment_id(&oid(2), &oid(3), 60007),
        "000000000000000000000002:000000000000000000000003:60.007"
    );
}

#[test]
fn hallucination_markers_are_recognised() {
    for text in [
        "[BLANK_AUDIO]",
        "so [silence] then",
        "[Music]",
        "you",
        "You",
        "Thank you.",
        "THANKS FOR WATCHING!",
    ] {
        assert!(is_hallucination(text), "{text}");
    }
    for text in ["you are right", "thank you", "music", "silence", "thanks for watching", ""] {
        assert!(!is_hallucination(text), "{text}");
    }
}

#[test]
fn only_the_bracketed_markers_count() {
    for text in ["(silence)", "(MUSIC) playing", "(music)", "silence]", "[ silence ]"] {
        assert!(!is_hallucination(text), "{text}");
    }
    assert_eq!(publishable_text(" (silence) "), Some("(silence)".to_string()));
    assert_eq!(publishable_text("(Music) playing"), Some("(Music) playing".to_string()));
}

#[test]
fn publishable_text_trims_and_filters() {
    assert_eq!(publishable_text("  guten Tag \n"), Some("guten Tag".to_string()));
    assert_eq!(publishable_text("   "), None);
    assert_eq!(publishable_text(""), None);
    assert_eq!(publishable_text(" [BLANK_AUDIO] "), None);
    assert_eq!(publishable_text("  Thank you.  "), None);
    assert_eq!(publishable_text("thank you all"), Some("thank you all".to_string()));
}

#[test]
fn transcript_keeps_the_segment_and_drops_hallucinations() {
    let segment = SpeechSegment {
        samples: 16000,
        start_ms: 1000,
        end_ms: 2000,
        is_final: false,
        segment_id: segment_id(&oid(5), &oid(6), 1000),
    };
    let result = TranscriptionResult {
        text: "  Hallo zusammen ".to_string(),
        language: Some("de".to_string()),
        confidence_ppm: Some(930_000),
    };
    let event = transcript_for(&segment, result, oid(5), oid(6), "Ada", 42).unwrap();
    assert_eq!(event.text, "Hallo zusammen");
    assert_eq!(event.speaker_name, "Ada");
    assert_eq!(event.language.as_deref(), Some("de"));
    assert_eq!(event.confidence_ppm, Some(930_000));
    assert_eq!((event.start_ms, event.end_ms, event.inference_duration_ms), (1000, 2000, 42));
    assert!(!event.is_final);
    assert_eq!(event.segment_id, segment.segment_id);
    assert_eq!(event.room_id, oid(5));
    assert_eq!(event.user_id, oid(6));

    let blank = TranscriptionResult {
        text: "[BLANK_AUDIO]".to_string(),
        language: None,
        confidence_ppm: None,
    };
    assert!(transcript_for(&segment, blank, oid(5), oid(6), "Ada", 1).is_none());
    let empty = TranscriptionResult { text: " \n".to_string(), language: None, confidence_ppm: None };
    assert!(transcript_for(&segment, empty, oid(5), oid(6), "Ada", 1).is_none());
}

#[test]
fn rtp_parse_reads_the_header_and_finds_the_payload() {
    let data = rtp(0x1234, &[9, 8, 7]);
    let packet = RtpPacket::parse(&data).unwrap();
    assert_eq!(packet.header.version, 2);
    assert!(!packet.header.padding);
    assert!(!packet.header.extension);
    assert_eq!(packet.header.csrc_count, 0);
    assert!(!packet.header.marker);
    assert_eq!(packet.header.payload_type, 111);
    assert_eq!(packet.header.sequence_number, 0x1234);
    assert_eq!(packet.header.timestamp, 0x3c0);
    assert_eq!(packet.header.ssrc, 7);
    assert_eq!(packet.payload(&data), &[9, 8, 7]);
}

#[test]
fn rtp_parse_skips_sources_extension_and_padding() {
    // two contributing sources, an extension of one word, two bytes of padding, marker set
    let mut data = vec![0x80 | 0x20 | 0x10 | 2, 0x80 | 96, 0, 1, 0, 0, 0, 1, 0, 0, 0, 2];
    data.extend_from_slice(&[0; 8]);
    data.extend_from_slice(&[0xbe, 0xde, 0, 1, 1, 2, 3, 4]);
    data.extend_from_slice(&[0xaa, 0xbb]);
    data.extend_from_slice(&[0, 2]);
    let packet = RtpPacket::parse(&data).unwrap();
    assert!(packet.header.padding && packet.header.extension && packet.header.marker);
    assert_eq!(packet.header.csrc_count, 2);
    assert_eq!(packet.header.payload_type, 96);
    assert_eq!(packet.payload_offset, 28);
    assert_eq!(packet.payload(&data), &[0xaa, 0xbb]);
}

#[test]
fn rtp_parse_refuses_malformed_datagrams() {
    assert!(RtpPacket::parse(&[]).is_none());
    assert!(RtpPacket::parse(&[0x80; 11]).is_none());
    let mut wrong_version = rtp(1, &[1]);
    wrong_version[0] = 0x40;
    assert!(RtpPacket::parse(&wrong_version).is_none());
    let mut sources_missing = rtp(1, &[]);
    sources_missing[0] = 0x81;
    assert!(RtpPacket::parse(&sources_missing).is_none());
    let mut extension_missing = rtp(1, &[0, 0]);
    extension_missing[0] = 0x90;
    assert!(RtpPacket::parse(&extension_missing).is_none());
    let mut extension_too_long = rtp(1, &[0xbe, 0xde, 0, 2, 0, 0, 0, 0]);
    extension_too_long[0] = 0x90;
    assert!(RtpPacket::parse(&extension_too_long).is_none());
    let mut zero_padding = rtp(1, &[5, 0]);
    zero_padding[0] = 0xa0;
    assert!(RtpPacket::parse(&zero_padding).is_none());
    let mut padding_too_long = rtp(1, &[5, 3]);
    padding_too_long[0] = 0xa0;
    assert!(RtpPacket::parse(&padding_too_long).is_none());
}

#[test]
fn concealment_counts_the_gap_up_to_three() {
    assert_eq!(concealment_count(10, 11), 0);
    assert_eq!(concealment_count(10, 12), 1);
    assert_eq!(concealment_count(10, 13), 2);
    assert_eq!(concealment_count(10, 14), 3);
    assert_eq!(concealment_count(10, 500), 3);
    assert_eq!(concealment_count(65535, 0), 0);
    assert_eq!(concealment_count(65534, 1), 2);
    assert_eq!(concealment_count(10, 10), 3);
    assert_eq!(concealment_count(10, 9), 3);
}

#[test]
fn ingestion_counts_packets_and_conceals_losses() {
    let mut ingestion = Ingestion::new(oid(1), oid(2), 500);
    assert!(ingestion.awaits_first_packet());
    assert_eq!(ingestion.accept_packet(&[1, 2, 3]), PacketStep::Malformed);
    assert_eq!(ingestion.packets, 1);
    assert!(ingestion.reports_packet_count());
    assert!(!ingestion.awaits_first_packet());
    assert_eq!(ingestion.accept_packet(&rtp(7, &[])), PacketStep::EmptyPayload);
    assert_eq!(ingestion.last_seq, None);
    match ingestion.accept_packet(&rtp(7, &[1])) {
        PacketStep::Decode { conceal, packet } => {
            assert_eq!(conceal, 0);
            assert_eq!(packet.payload_len, 1);
        }
        other => panic!("{other:?}"),
    }
    assert!(matches!(ingestion.accept_packet(&rtp(8, &[1])), PacketStep::Decode { conceal: 0, .. }));
    assert!(matches!(ingestion.accept_packet(&rtp(11, &[1])), PacketStep::Decode { conceal: 2, .. }));
    assert!(matches!(ingestion.accept_packet(&rtp(40, &[1])), PacketStep::Decode { conceal: 3, .. }));
    assert_eq!(ingestion.last_seq, Some(40));
    assert_eq!(ingestion.packets, 6);
    assert!(!ingestion.reports_packet_count());
}

#[test]
fn ingestion_reports_the_missing_first_packet_once() {
    let mut ingestion = Ingestion::new(oid(1), oid(2), 500);
    assert!(ingestion.awaits_first_packet());
    ingestion.note_timeout();
    assert!(!ingestion.awaits_first_packet());
}

#[test]
fn partials_share_the_segment_id_of_their_final() {
    let room = oid(0xa);
    let user = oid(0xb);
    let mut ingestion = Ingestion::new(room, user, 500);
    let inputs = vec![
        VadInput::Tick { now_ms: 100, speech_active: false, buffered_samples: 0 },
        VadInput::SpeechStart { now_ms: 1000 },
        VadInput::Tick { now_ms: 1300, speech_active: true, buffered_samples: 4800 },
        VadInput::Tick { now_ms: 1499, speech_active: true, buffered_samples: 7999 },
        VadInput::Tick { now_ms: 1500, speech_active: true, buffered_samples: 7999 },
        VadInput::Tick { now_ms: 1500, speech_active: true, buffered_samples: 8000 },
        VadInput::Tick { now_ms: 1800, speech_active: true, buffered_samples: 12800 },
        VadInput::Tick { now_ms: 2000, speech_active: true, buffered_samples: 16000 },
        VadInput::SpeechEnd { now_ms: 2500, duration_ms: 1500, samples: 24000 },
        VadInput::Tick { now_ms: 2600, speech_active: false, buffered_samples: 20000 },
    ];
    let segments = ingestion.ingest(&inputs);
    let id = segment_id(&room, &user, 1000);
    assert_eq!(segments.len(), 3);
    assert!(segments.iter().all(|s| s.segment_id == id));
    assert!(!segments[0].is_final && !segments[1].is_final && segments[2].is_final);
    assert_eq!((segments[0].start_ms, segments[0].end_ms, segments[0].samples), (1000, 1500, 8000));
    assert_eq!((segments[1].start_ms, segments[1].end_ms, segments[1].samples), (1000, 2000, 16000));
    assert_eq!((segments[2].start_ms, segments[2].end_ms, segments[2].samples), (1000, 2500, 24000));
    assert_eq!(ingestion.utterance_start_ms, 1000);
    assert_eq!(ingestion.last_partial_ms, 2000);
}

#[test]
fn a_short_utterance_gets_a_final_without_partials() {
    let mut ingestion = Ingestion::new(oid(1), oid(2), 500);
    assert!(ingestion.step(&VadInput::SpeechStart { now_ms: 40 }).is_none());
    let segment = ingestion
        .step(&VadInput::SpeechEnd { now_ms: 340, duration_ms: 400, samples: 4800 })
        .unwrap();
    assert!(segment.is_final);
    assert_eq!((segment.start_ms, segment.end_ms), (0, 340));
    assert_eq!(segment.segment_id, segment_id(&oid(1), &oid(2), 40));
}

#[test]
fn file_playback_segments_follow_the_sample_clock() {
    assert_eq!(full_chunks(0), 0);
    assert_eq!(full_chunks(511), 0);
    assert_eq!(full_chunks(512), 1);
    assert_eq!(full_chunks(16000), 31);
    let mut playback = FilePlayback::new(oid(1), oid(2));
    assert!(playback.on_chunk(&Vec::new()).is_empty());
    assert_eq!(playback.sample_offset, 512);
    let mut reports: Vec<Vec<SpeechEnd>> = vec![Vec::new(); 100];
    reports[50] = vec![SpeechEnd { duration_ms: 900, samples: 14400 }];
    reports[99] = vec![SpeechEnd { duration_ms: 1000, samples: 16000 }];
    let segments = run_vad(oid(1), oid(2), &reports);
    assert_eq!(segments.len(), 2);
    assert!(segments.iter().all(|s| s.is_final));
    assert_eq!((segments[0].start_ms, segments[0].end_ms), (700, 1600));
    assert_eq!(segments[0].segment_id, segment_id(&oid(1), &oid(2), 700));
    assert_eq!((segments[1].start_ms, segments[1].end_ms), (2168, 3168));
    assert!(segments[0].start_ms <= segments[1].start_ms);
    let whole = whole_file_segment(&oid(1), &oid(2), 32000);
    assert_eq!((whole.start_ms, whole.end_ms, whole.samples), (0, 2000, 32000));
    assert!(whole.is_final);
    assert_eq!(whole.segment_id, segment_id(&oid(1), &oid(2), 0));
}

#[test]
fn transcription_config_defaults() {
    let config = TranscriptionConfig::default();
    assert!(!config.enabled);
    assert_eq!(config.backend, "local_onnx");
    assert_eq!(config.vad_start_threshold_pct, 45);
    assert_eq!(config.vad_end_threshold_pct, 30);
    assert_eq!(config.vad_min_speech_frames, 3);
    assert_eq!(config.vad_min_silence_frames, 20);
    assert_eq!(config.vad_pre_speech_pad_frames, 15);
    assert_eq!(config.max_speech_duration_ms, 30000);
    assert_eq!(config.streaming_partial_interval_ms, 500);
    assert!(config.language.is_none() && config.nim_model.is_none());
}

fn engine(backends: &[&str], default: &str) -> TranscriptionEngine {
    TranscriptionEngine::new(
        backends.iter().map(|b| b.to_string()).collect(),
        default.to_string(),
        TranscriptionConfig::default(),
    )
}

#[test]
fn worker_keys_name_the_room() {
    let room = oid(0x10);
    assert_eq!(worker_key(&room, "42"), "000000000000000000000010:42");
    assert_eq!(playback_key(&room, "u-1"), "file:000000000000000000000010:u-1");
    assert!(key_belongs_to_room("000000000000000000000010:42", &room));
    assert!(key_belongs_to_room("file:000000000000000000000010:u-1", &room));
    assert!(!key_belongs_to_room("000000000000000000000011:42", &room));
    assert!(!key_belongs_to_room("file:000000000000000000000011:u-1", &room));
    assert!(!key_belongs_to_room("file", &room));
}

#[test]
fn enabling_twice_claims_one_broadcast() {
    let mut e = engine(&["whisper"], "whisper");
    let room = oid(1);
    assert!(!e.is_enabled(&room));
    e.enable_room(room, "whisper".to_string());
    assert!(e.try_start_broadcast(room));
    e.enable_room(room, "whisper".to_string());
    assert!(!e.try_start_broadcast(room));
    assert!(e.is_enabled(&room));
    assert!(e.try_start_broadcast(oid(2)));
    e.clear_broadcast(&room);
    assert!(e.try_start_broadcast(room));
}

#[test]
fn backend_falls_back_to_default_then_first() {
    let mut e = engine(&["whisper", "canary"], "canary");
    let room = oid(1);
    assert_eq!(e.default_backend_name(), "canary");
    assert_eq!(e.available_backends(), vec!["whisper".to_string(), "canary".to_string()]);
    assert_eq!(e.get_backend(&room).as_deref(), Some("canary"));
    e.enable_room(room, "whisper".to_string());
    assert_eq!(e.get_backend(&room).as_deref(), Some("whisper"));
    e.enable_room(room, "missing".to_string());
    assert_eq!(e.get_backend(&room).as_deref(), Some("canary"));
    let mut odd = engine(&["whisper"], "gone");
    odd.enable_room(room, "missing".to_string());
    assert_eq!(odd.get_backend(&room).as_deref(), Some("whisper"));
    let none = engine(&[], "gone");
    assert_eq!(none.get_backend(&room), None);
}

#[test]
fn disabling_stops_every_worker_of_the_room() {
    let mut e = engine(&["whisper"], "whisper");
    let room = oid(1);
    let other = oid(2);
    e.enable_room(room, "whisper".to_string());
    e.enable_room(other, "whisper".to_string());
    let a = e.start_pipeline(&room, "7");
    let b = e.start_pipeline(&room, "8");
    let c = e.start_pipeline(&other, "7");
    let (file_id, file_worker) = e.begin_file_playback(&room, "abc").unwrap();
    assert_eq!(file_id, "file:000000000000000000000001:abc");
    assert_eq!(e.active_pipeline_count(), 4);
    assert!(e.try_start_broadcast(room));
    let mut stopped = e.disable_room(room);
    stopped.sort_by_key(|s| s.key.clone());
    let keys: Vec<&str> = stopped.iter().map(|s| s.key.as_str()).collect();
    assert_eq!(
        keys,
        vec![
            "000000000000000000000001:7",
            "000000000000000000000001:8",
            "file:000000000000000000000001:abc"
        ]
    );
    let handles: Vec<u64> = stopped.iter().map(|s| s.handle).collect();
    assert_eq!(
        handles,
        vec![a.started.unwrap().handle, b.started.unwrap().handle, file_worker.handle]
    );
    assert_eq!(e.active_pipeline_count(), 1);
    assert!(!e.is_enabled(&room));
    assert!(e.is_enabled(&other));
    assert!(e.try_start_broadcast(room));
    assert_eq!(e.stop_producer(&other, "7"), Some(c.started.unwrap().handle));
    assert_eq!(e.active_pipeline_count(), 0);
}

#[test]
fn starting_a_pipeline_replaces_the_old_worker() {
    let mut e = engine(&["whisper", "canary"], "whisper");
    let room = oid(1);
    let first = e.start_pipeline(&room, "p");
    assert_eq!(first.key, "000000000000000000000001:p");
    assert_eq!(first.replaced, None);
    let first_worker = first.started.unwrap();
    assert_eq!(first_worker.backend, "whisper");
    e.enable_room(room, "canary".to_string());
    let second = e.start_pipeline(&room, "p");
    assert_eq!(second.replaced, Some(first_worker.handle));
    let second_worker = second.started.unwrap();
    assert_eq!(second_worker.backend, "canary");
    assert_ne!(second_worker.handle, first_worker.handle);
    assert_eq!(e.active_pipeline_count(), 1);
    assert_eq!(e.stop_pipeline("000000000000000000000001:p"), Some(second_worker.handle));
    assert_eq!(e.stop_pipeline("000000000000000000000001:p"), None);

    let mut none = engine(&[], "whisper");
    let start = none.start_pipeline(&room, "p");
    assert!(start.started.is_none());
    assert_eq!(none.active_pipeline_count(), 0);
}

#[test]
fn playbacks_of_a_connection_stop_with_it() {
    let mut e = engine(&["whisper"], "whisper");
    let room = oid(1);
    let (first, first_worker) = e.begin_file_playback(&room, "a").unwrap();
    let (second, second_worker) = e.begin_file_playback(&room, "b").unwrap();
    let (third, _) = e.start_file_playback(&room).unwrap();
    assert!(third.starts_with("file:000000000000000000000001:"));
    assert_ne!(third, first);
    e.track_playback("c1", &first);
    e.track_playback("c1", &second);
    e.track_playback("c1", "file:gone");
    e.track_playback("c2", &third);
    assert_eq!(e.stop_pipeline(&second), Some(second_worker.handle));
    assert_eq!(e.stop_connection_playbacks("c1"), vec![first_worker.handle]);
    assert_eq!(e.stop_connection_playbacks("c1"), Vec::<u64>::new());
    assert_eq!(e.active_pipeline_count(), 1);
    assert_eq!(e.stop_connection_playbacks("c2").len(), 1);
    assert_eq!(e.active_pipeline_count(), 0);
}

#[test]
fn streamed_results_keep_their_finality() {
    let partial = StreamingResult { text: " guten ".to_string(), is_final: false, language: None, confidence_ppm: None };
    let event = transcript_for_stream(partial, oid(1), oid(2), "Ada", "seg", 100, 600, 7).unwrap();
    assert_eq!(event.text, "guten");
    assert!(!event.is_final);
    assert_eq!((event.segment_id.as_str(), event.start_ms, event.end_ms), ("seg", 100, 600));
    let last = StreamingResult { text: "guten Tag".to_string(), is_final: true, language: Some("de".to_string()), confidence_ppm: Some(1) };
    let event = transcript_for_stream(last, oid(1), oid(2), "Ada", "seg", 100, 900, 7).unwrap();
    assert!(event.is_final);
    assert_eq!(event.confidence_ppm, Some(1));
    let noise = StreamingResult { text: "[MUSIC]".to_string(), is_final: true, language: None, confidence_ppm: None };
    assert!(transcript_for_stream(noise, oid(1), oid(2), "Ada", "seg", 0, 1, 1).is_none());
}

#[test]
fn a_backend_is_registered_once() {
    let e = engine(&["whisper", "nim", "whisper", "nim", "canary"], "whisper");
    assert_eq!(e.available_backends(), vec!["whisper", "nim", "canary"]);
    assert_eq!(
        distinct_names(&vec!["a".to_string(), "a".to_string(), "b".to_string(), "a".to_string()]),
        vec!["a", "b"]
    );
    assert!(distinct_names(&Vec::new()).is_empty());
}

#[test]
fn the_engine_keeps_its_configuration() {
    let mut config = TranscriptionConfig::default();
    config.streaming_partial_interval_ms = 250;
    config.language = Some("de".to_string());
    let mut e = TranscriptionEngine::new(vec!["whisper".to_string()], "whisper".to_string(), config);
    let room = ObjectId::from_value(77).unwrap();
    e.enable_room(room, "whisper".to_string());
    assert!(e.try_start_broadcast(room));
    let _ = e.start_pipeline(&room, "p1");
    let _ = e.disable_room(room);
    assert_eq!(e.config().streaming_partial_interval_ms, 250);
    assert_eq!(e.config().language.as_deref(), Some("de"));
}

#[test]
fn the_audio_clock_counts_samples_not_arrivals() {
    let mut clock = AudioClock::new();
    assert_eq!(clock.now_ms(), 0);
    clock.advance(15);
    assert_eq!(clock.now_ms(), 0);
    clock.advance(1);
    assert_eq!(clock.now_ms(), 1);
    clock.advance(320);
    assert_eq!((clock.samples, clock.now_ms()), (336, 21));
    clock.advance(16000);
    assert_eq!(clock.now_ms(), 1021);
    clock.advance(0);
    assert_eq!(clock.now_ms(), 1021);
    let mut late = AudioClock { samples: u64::MAX - 5 };
    late.advance(100);
    assert_eq!(late.samples, u64::MAX);
    assert_eq!(late.now_ms(), u64::MAX / 16);
    assert_eq!(SAMPLES_PER_MS, 16);
}

#[test]
fn a_second_of_speech_gets_a_partial_and_then_its_final() {
    let room = oid(0xc);
    let user = oid(0xd);
    let mut ingestion = Ingestion::new(room, user, 500);
    let mut clock = AudioClock::new();
    // two seconds of silence in chunks of 20 ms, then speech
    for _ in 0..100 {
        clock.advance(320);
        let tick = VadInput::Tick { now_ms: clock.now_ms(), speech_active: false, buffered_samples: 0 };
        assert!(ingestion.step(&tick).is_none());
    }
    let start = clock.now_ms();
    assert_eq!(start, 2000);
    assert!(ingestion.step(&VadInput::SpeechStart { now_ms: start }).is_none());
    let mut sent = Vec::new();
    let mut buffered = 0usize;
    for _ in 0..50 {
        clock.advance(320);
        buffered += 320;
        let tick = VadInput::Tick { now_ms: clock.now_ms(), speech_active: true, buffered_samples: buffered };
        if let Some(segment) = ingestion.step(&tick) {
            sent.push(segment);
        }
    }
    assert_eq!(buffered, 16000);
    let end = VadInput::SpeechEnd { now_ms: clock.now_ms(), duration_ms: 1000, samples: buffered };
    sent.push(ingestion.step(&end).unwrap());
    let id = segment_id(&room, &user, 2000);
    assert_eq!(sent.len(), 3);
    assert!(sent.iter().all(|s| s.segment_id == id));
    assert_eq!(
        sent.iter().map(|s| (s.is_final, s.start_ms, s.end_ms, s.samples)).collect::<Vec<_>>(),
        vec![(false, 2000, 2500, 8000), (false, 2000, 3000, 16000), (true, 2000, 3000, 16000)]
    );
}

#[test]
fn a_packet_stamps_its_findings_with_the_audio_time() {
    let room = oid(0xe);
    let user = oid(0xf);
    let mut ingestion = Ingestion::new(room, user, 500);
    let mut clock = AudioClock::new();
    // one second of silence, then the packet in which speech begins
    assert!(ingestion.on_audio(&mut clock, 16000, &Vec::new(), false, 0).is_empty());
    assert!(ingestion.on_audio(&mut clock, 320, &vec![Detected::SpeechStart], true, 320).is_empty());
    assert_eq!((clock.samples, ingestion.utterance_start_ms), (16320, 1020));
    // not yet due: first the interval has not passed, then too little is buffered
    assert!(ingestion.on_audio(&mut clock, 7984, &Vec::new(), true, 8304).is_empty());
    assert_eq!(clock.now_ms(), 1519);
    assert!(ingestion.on_audio(&mut clock, 16, &Vec::new(), true, 7999).is_empty());
    assert_eq!(clock.now_ms(), 1520);
    let partial = ingestion.on_audio(&mut clock, 16, &Vec::new(), true, 8320);
    assert_eq!(partial.len(), 1);
    assert_eq!(
        (partial[0].is_final, partial[0].start_ms, partial[0].end_ms, partial[0].samples),
        (false, 1020, 1521, 8320)
    );
    // the end of the utterance and the start of the next in one packet:
    // the final comes first, under the identifier of the utterance that ended
    let found = vec![Detected::SpeechEnd { duration_ms: 701, samples: 11216 }, Detected::SpeechStart];
    let sent = ingestion.on_audio(&mut clock, 3200, &found, true, 0);
    assert_eq!(sent.len(), 1);
    assert!(sent[0].is_final);
    assert_eq!((sent[0].start_ms, sent[0].end_ms, sent[0].samples), (1020, 1721, 11216));
    assert_eq!(sent[0].segment_id, segment_id(&room, &user, 1020));
    assert_eq!(partial[0].segment_id, sent[0].segment_id);
    assert_eq!(ingestion.utterance_start_ms, 1721);
    // a detector that is silent sends nothing
    assert!(ingestion.on_audio(&mut clock, 320, &Vec::new(), false, 0).is_empty());
}
