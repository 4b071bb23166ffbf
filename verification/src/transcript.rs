use crate::ids::{hex_text, ObjectId};
use crate::text::{
    opt_text, chars_of, contains, contains_text, decimal, decimal_padded, lowercase_of, push_decimal,
    push_decimal_padded, push_text, same_text, trim, trimmed,
};
use vstd::prelude::*;

verus! {

/// A time in milliseconds written in seconds with three decimals, as in `12.345`.
pub open spec fn seconds_text(ms: nat) -> Seq<char> {
    decimal(ms / 1000) + seq!['.'] + decimal_padded(ms % 1000, 3)
}

/// The identifier shared by the partial and final transcripts of one
/// utterance: the room, the speaker and the utterance's start in seconds,
/// separated by colons.
pub open spec fn segment_id_text(room: nat, user: nat, start_ms: nat) -> Seq<char> {
    hex_text(room, 24) + seq![':'] + hex_text(user, 24) + seq![':'] + seconds_text(start_ms)
}

/// The text is one of the placeholders that speech recognisers are known to
/// invent for silence or noise. Case is ignored.
pub open spec fn is_hallucination_text(text: Seq<char>) -> bool {
    let lower = lowercase_of(text);
    ||| contains_text(lower, "[blank_audio]"@)
    ||| contains_text(lower, "[silence]"@)
    ||| contains_text(lower, "[music]"@)
    ||| lower == "you"@
    ||| lower == "thank you."@
    ||| lower == "thanks for watching!"@
}

/// Whether a recogniser's output, once trimmed, may be published.
pub open spec fn is_publishable(raw: Seq<char>) -> bool {
    trimmed(raw).len() > 0 && !is_hallucination_text(trimmed(raw))
}

/// A stretch of speech handed to the recogniser. The audio itself stays with
/// the caller; `samples` is its length at 16 kHz.
#[derive(Debug)]
pub struct SpeechSegment {
    pub samples: usize,
    pub start_ms: u64,
    pub end_ms: u64,
    pub is_final: bool,
    pub segment_id: String,
}

/// What a [`SpeechSegment`] holds, as mathematical values.
pub ghost struct SegmentView {
    pub samples: nat,
    pub start_ms: nat,
    pub end_ms: nat,
    pub is_final: bool,
    pub segment_id: Seq<char>,
}

impl View for SpeechSegment {
    type V = SegmentView;

    open spec fn view(&self) -> SegmentView {
        SegmentView {
            samples: self.samples as nat,
            start_ms: self.start_ms as nat,
            end_ms: self.end_ms as nat,
            is_final: self.is_final,
            segment_id: self.segment_id@,
        }
    }
}

/// What a recogniser returned for one segment. The confidence is in parts per million.
#[derive(Debug)]
pub struct TranscriptionResult {
    pub text: String,
    pub language: Option<String>,
    pub confidence_ppm: Option<u32>,
}

/// A transcript of one utterance, partial or final, ready for the room's participants.
#[derive(Debug)]
pub struct TranscriptEvent {
    pub room_id: ObjectId,
    pub user_id: ObjectId,
    pub speaker_name: String,
    pub text: String,
    pub language: Option<String>,
    pub confidence_ppm: Option<u32>,
    /// Milliseconds since the room's transcription started.
    pub start_ms: u64,
    /// Milliseconds since the room's transcription started.
    pub end_ms: u64,
    pub inference_duration_ms: u64,
    pub is_final: bool,
    pub segment_id: String,
}

/// What a [`TranscriptEvent`] holds, as mathematical values.
pub ghost struct TranscriptView {
    pub room_id: ObjectId,
    pub user_id: ObjectId,
    pub speaker_name: Seq<char>,
    pub text: Seq<char>,
    pub language: Option<Seq<char>>,
    pub confidence_ppm: Option<u32>,
    pub start_ms: u64,
    pub end_ms: u64,
    pub inference_duration_ms: u64,
    pub is_final: bool,
    pub segment_id: Seq<char>,
}

impl View for TranscriptEvent {
    type V = TranscriptView;

    open spec fn view(&self) -> TranscriptView {
        TranscriptView {
            room_id: self.room_id,
            user_id: self.user_id,
            speaker_name: self.speaker_name@,
            text: self.text@,
            language: opt_text(self.language),
            confidence_ppm: self.confidence_ppm,
            start_ms: self.start_ms,
            end_ms: self.end_ms,
            inference_duration_ms: self.inference_duration_ms,
            is_final: self.is_final,
            segment_id: self.segment_id@,
        }
    }
}

impl TranscriptEvent {
    /// A copy of the event.
    pub fn duplicate(&self) -> (copy: TranscriptEvent)
        ensures
            copy@ == self@,
    {
        TranscriptEvent {
            room_id: self.room_id,
            user_id: self.user_id,
            speaker_name: self.speaker_name.clone(),
            text: self.text.clone(),
            language: match &self.language {
                Some(l) => Some(l.clone()),
                None => None,
            },
            confidence_ppm: self.confidence_ppm,
            start_ms: self.start_ms,
            end_ms: self.end_ms,
            inference_duration_ms: self.inference_duration_ms,
            is_final: self.is_final,
            segment_id: self.segment_id.clone(),
        }
    }
}

/// Writes the segment identifier of the utterance that `user` began in `room` at `start_ms`.
pub fn segment_id(room: &ObjectId, user: &ObjectId, start_ms: u64) -> (id: String)
    ensures
        id@ == segment_id_text(room@, user@, start_ms as nat),
{
    let mut id = room.to_hex();
    id.push(':');
    let user_hex = user.to_hex();
    push_text(&mut id, user_hex.as_str());
    id.push(':');
    push_decimal(&mut id, start_ms / 1000);
    id.push('.');
    push_decimal_padded(&mut id, start_ms % 1000, 3);
    proof {
        let r = hex_text(room@, 24);
        let u = hex_text(user@, 24);
        let a = decimal((start_ms / 1000) as nat);
        let b = decimal_padded((start_ms % 1000) as nat, 3);
        assert(id@ =~= r + seq![':'] + u + seq![':'] + (a + seq!['.'] + b));
    }
    id
}

/// Returns true if the text is a known recogniser placeholder for silence or noise.
pub fn is_hallucination(text: &str) -> (b: bool)
    ensures
        b == is_hallucination_text(text@),
{
    let lower_text = text.to_lowercase();
    let lower = chars_of(lower_text.as_str());
    contains(&lower, &chars_of("[blank_audio]")) || contains(&lower, &chars_of("[silence]"))
        || contains(&lower, &chars_of("[music]")) || same_text(&lower, &chars_of("you"))
        || same_text(&lower, &chars_of("thank you.")) || same_text(
        &lower,
        &chars_of("thanks for watching!"),
    )
}

/// Trims a recogniser's output and decides whether it may be published:
/// empty text and known placeholders are dropped.
pub fn publishable_text(raw: &str) -> (text: Option<String>)
    ensures
        text is Some <==> is_publishable(raw@),
        text is Some ==> text.unwrap()@ == trimmed(raw@),
{
    let t = trim(raw);
    if t.as_str().unicode_len() == 0 || is_hallucination(t.as_str()) {
        None
    } else {
        Some(t)
    }
}

/// Turns a recogniser's result for `segment` into the event to publish, or
/// into nothing where the text is empty or a known placeholder. The event
/// keeps the segment's times, its identifier and whether it is final.
pub fn transcript_for(
    segment: &SpeechSegment,
    result: TranscriptionResult,
    room_id: ObjectId,
    user_id: ObjectId,
    speaker_name: &str,
    inference_duration_ms: u64,
) -> (event: Option<TranscriptEvent>)
    ensures
        event is Some <==> is_publishable(result.text@),
        event is Some ==> {
            let e = event.unwrap();
            &&& e.text@ == trimmed(result.text@)
            &&& !is_hallucination_text(e.text@)
            &&& e.text@.len() > 0
            &&& e.room_id == room_id
            &&& e.user_id == user_id
            &&& e.speaker_name@ == speaker_name@
            &&& e.language == result.language
            &&& e.confidence_ppm == result.confidence_ppm
            &&& e.start_ms == segment.start_ms
            &&& e.end_ms == segment.end_ms
            &&& e.inference_duration_ms == inference_duration_ms
            &&& e.is_final == segment.is_final
            &&& e.segment_id@ == segment.segment_id@
        },
{
    match publishable_text(result.text.as_str()) {
        None => None,
        Some(text) => Some(
            TranscriptEvent {
                room_id,
                user_id,
                speaker_name: speaker_name.to_owned(),
                text,
                language: result.language,
                confidence_ppm: result.confidence_ppm,
                start_ms: segment.start_ms,
                end_ms: segment.end_ms,
                inference_duration_ms,
                is_final: segment.is_final,
                segment_id: segment.segment_id.clone(),
            },
        ),
    }
}

/// A result of a recogniser that streams: partial while the utterance
/// goes on, final at its end. The confidence is in parts per million.
#[derive(Debug)]
pub struct StreamingResult {
    pub text: String,
    pub is_final: bool,
    pub language: Option<String>,
    pub confidence_ppm: Option<u32>,
}

/// Turns a streamed result into the event to publish, or into nothing
/// where the text is empty or a known placeholder. The event is final
/// exactly when the result is.
pub fn transcript_for_stream(
    result: StreamingResult,
    room_id: ObjectId,
    user_id: ObjectId,
    speaker_name: &str,
    segment_id: &str,
    start_ms: u64,
    end_ms: u64,
    inference_duration_ms: u64,
) -> (event: Option<TranscriptEvent>)
    ensures
        event is Some <==> is_publishable(result.text@),
        event is Some ==> {
            let e = event.unwrap();
            &&& e.text@ == trimmed(result.text@)
            &&& !is_hallucination_text(e.text@)
            &&& e.text@.len() > 0
            &&& e.room_id == room_id
            &&& e.user_id == user_id
            &&& e.speaker_name@ == speaker_name@
            &&& e.language == result.language
            &&& e.confidence_ppm == result.confidence_ppm
            &&& e.start_ms == start_ms
            &&& e.end_ms == end_ms
            &&& e.inference_duration_ms == inference_duration_ms
            &&& e.is_final == result.is_final
            &&& e.segment_id@ == segment_id@
        },
{
    match publishable_text(result.text.as_str()) {
        None => None,
        Some(text) => Some(
            TranscriptEvent {
                room_id,
                user_id,
                speaker_name: speaker_name.to_owned(),
                text,
                language: result.language,
                confidence_ppm: result.confidence_ppm,
                start_ms,
                end_ms,
                inference_duration_ms,
                is_final: result.is_final,
                segment_id: segment_id.to_owned(),
            },
        ),
    }
}

} // verus!
