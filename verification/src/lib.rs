//! The verified core of a real-time collaboration server: the registry of
//! WebSocket connections and the fan-out of events, the rooms of the media
//! plane with their participants, transports and producers, the books of
//! the transcription engine and the state machines of its workers, the call
//! records of rooms, and the issuing of TURN credentials. Around them stand
//! the smaller rules of the API: identifiers, errors, invites, sign-in
//! addresses, word error rates and the reading of subtitle files.
//!
//! The library decides; sockets, tasks, the media engine and the
//! recognisers are the caller's. Where a decision needs the answer of one of
//! them, the caller hands the answer in.
//!
//! A few functions of other crates and of the standard library are called
//! through declarations whose contracts are taken on trust: the tables of
//! `dashmap` in [`tables`], HMAC-SHA1 and base64 in [`crypto`],
//! percent-encoding in [`encoding`], random identifiers and numbers in
//! [`random`], time formatting in [`timefmt`], and lower-casing and
//! character classes in [`text`].

pub mod api;
pub mod asr;
pub mod calls;
pub mod config;
pub mod crypto;
pub mod dispatcher;
pub mod encoding;
pub mod engine;
pub mod events;
pub mod file_playback;
pub mod handler;
pub mod ids;
pub mod ingest;
pub mod invite;
pub mod media;
pub mod membership;
pub mod models;
pub mod oauth;
pub mod protocol;
pub mod random;
pub mod rooms;
pub mod rtp;
pub mod seqs;
pub mod storage;
pub mod subtitles;
pub mod tables;
pub mod text;
pub mod timefmt;
pub mod transcript;
pub mod turn;
pub mod wer;
