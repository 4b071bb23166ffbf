use crate::ids::ObjectId;
use crate::rtp::{
    concealment_count, is_rtp, payload_end, payload_start, sequence_gap, RtpPacket,
    MAX_CONCEALED_PACKETS,
};
use crate::seqs::views;
use crate::transcript::{segment_id, segment_id_text, SegmentView, SpeechSegment};
use vstd::prelude::*;

verus! {

/// A partial transcript is asked for only once this much speech is buffered: half a second at 16 kHz.
pub const MIN_PARTIAL_SAMPLES: usize = 8000;

/// The voice-activity detector works on chunks of this many samples: 32 ms at 16 kHz.
pub const VAD_CHUNK_SIZE: usize = 512;

/// How long the worker waits for its first packet before it reports that none came.
pub const FIRST_PACKET_TIMEOUT_MS: u64 = 5000;

/// How many segments wait for the recogniser at most. The queue is small
/// because recognition is slow against the rate of segments; a full queue
/// holds the ingestion back.
pub const SEGMENT_QUEUE_CAPACITY: usize = 16;

/// The packet count is reported at the first packet and then at every multiple of this.
pub const PACKET_REPORT_INTERVAL: u64 = 500;

/// Samples in a millisecond of the audio that the detector hears: 16 kHz, one channel.
pub const SAMPLES_PER_MS: u64 = 16;

/// The time of a producer's audio: it advances with the samples that were
/// decoded or concealed, not with the time at which their packets came.
#[derive(Clone, Copy, Debug)]
pub struct AudioClock {
    pub samples: u64,
}

impl AudioClock {
    /// The milliseconds of audio in `samples` samples, rounded down.
    pub open spec fn ms_of(samples: u64) -> u64 {
        samples / SAMPLES_PER_MS
    }

    /// A clock at the start of the audio.
    pub fn new() -> (clock: AudioClock)
        ensures
            clock.samples == 0,
    {
        AudioClock { samples: 0 }
    }

    /// Moves the clock on by `samples` samples. The clock stops at the
    /// largest count that it can hold.
    pub fn advance(&mut self, samples: usize)
        ensures
            *final(self) == old(self).after(samples),
            Self::ms_of(old(self).samples) <= Self::ms_of(final(self).samples),
    {
        let more: u64 = samples as u64;
        self.samples = if more <= u64::MAX - self.samples {
            self.samples + more
        } else {
            u64::MAX
        };
    }

    /// The clock after `samples` more samples.
    pub open spec fn after(self, samples: usize) -> AudioClock {
        AudioClock {
            samples: if self.samples + samples <= u64::MAX {
                (self.samples + samples) as u64
            } else {
                u64::MAX
            },
        }
    }

    /// The audio time in milliseconds.
    pub fn now_ms(&self) -> (ms: u64)
        ensures
            ms == Self::ms_of(self.samples),
    {
        self.samples / SAMPLES_PER_MS
    }
}

/// What the voice-activity detector reported, stamped with the audio time
/// since the worker started.
#[derive(Clone, Copy, Debug, PartialEq, Eq, Structural)]
pub enum VadInput {
    /// Speech began.
    SpeechStart { now_ms: u64 },
    /// Speech ended: the utterance lasted `duration_ms` and holds `samples` samples.
    SpeechEnd { now_ms: u64, duration_ms: u64, samples: usize },
    /// The detector's state after a chunk: whether speech is going on and
    /// how many samples of it are buffered.
    Tick { now_ms: u64, speech_active: bool, buffered_samples: usize },
}

/// What the voice-activity detector found in the audio of one packet,
/// before it is given its time.
#[derive(Clone, Copy, Debug, PartialEq, Eq, Structural)]
pub enum Detected {
    /// Speech began.
    SpeechStart,
    /// Speech ended: the utterance lasted `duration_ms` and holds `samples` samples.
    SpeechEnd { duration_ms: u64, samples: usize },
}

/// A finding of the detector, stamped with the audio time `now_ms`.
pub open spec fn stamped(found: Detected, now_ms: u64) -> VadInput {
    match found {
        Detected::SpeechStart => VadInput::SpeechStart { now_ms },
        Detected::SpeechEnd { duration_ms, samples } => VadInput::SpeechEnd {
            now_ms,
            duration_ms,
            samples,
        },
    }
}

/// What the audio of one packet feeds to the ingestion: the detector's
/// findings in order, each stamped with the audio time after the packet,
/// and then one tick with the detector's state.
pub open spec fn packet_inputs(
    now_ms: u64,
    found: Seq<Detected>,
    speech_active: bool,
    buffered_samples: usize,
) -> Seq<VadInput> {
    Seq::new(found.len(), |i: int| stamped(found[i], now_ms)).push(
        VadInput::Tick { now_ms, speech_active, buffered_samples },
    )
}

/// What to do with a datagram that arrived on the RTP tap.
#[derive(Clone, Copy, Debug, PartialEq, Eq, Structural)]
pub enum PacketStep {
    /// Not an RTP packet: skip it.
    Malformed,
    /// An RTP packet without payload: skip it.
    EmptyPayload,
    /// Conceal `conceal` lost packets, then decode the payload of `packet`.
    Decode { conceal: u16, packet: RtpPacket },
}

/// The state of one producer's ingestion: packet bookkeeping and the clocks
/// that decide when partial and final segments go to the recogniser.
#[derive(Clone, Copy, Debug)]
pub struct Ingestion {
    pub room_id: ObjectId,
    pub user_id: ObjectId,
    pub partial_interval_ms: u64,
    pub last_seq: Option<u16>,
    pub packets: u64,
    pub timeout_warned: bool,
    pub utterance_start_ms: u64,
    pub last_partial_ms: u64,
}

/// `a - b`, or zero where `b` is the larger.
pub open spec fn floor_sub(a: u64, b: u64) -> u64 {
    if a >= b {
        (a - b) as u64
    } else {
        0
    }
}

impl Ingestion {
    /// The segment identifier of the utterance in progress.
    pub open spec fn current_segment_id(self) -> Seq<char> {
        segment_id_text(self.room_id@, self.user_id@, self.utterance_start_ms as nat)
    }

    /// Whether a tick at `now_ms` asks for a partial transcript: speech is
    /// going on, the interval since the last partial has passed and enough
    /// speech is buffered.
    pub open spec fn partial_due(self, now_ms: u64, speech_active: bool, buffered: usize) -> bool {
        speech_active && floor_sub(now_ms, self.last_partial_ms) >= self.partial_interval_ms
            && buffered >= MIN_PARTIAL_SAMPLES
    }

    /// Whether `input` is a tick that finds a first partial due in an
    /// utterance that began at `start_ms`: speech is going on, the interval
    /// has passed since the start and enough speech is buffered.
    pub open spec fn first_partial_due(self, input: VadInput, start_ms: u64) -> bool {
        match input {
            VadInput::Tick { now_ms, speech_active, buffered_samples } => speech_active
                && floor_sub(now_ms, start_ms) >= self.partial_interval_ms && buffered_samples
                >= MIN_PARTIAL_SAMPLES,
            _ => false,
        }
    }

    /// The state after `input`, and the segment that it sends to the recogniser, if any.
    pub open spec fn step_spec(self, input: VadInput) -> (Ingestion, Option<SegmentView>) {
        match input {
            VadInput::SpeechStart { now_ms } => (
                Ingestion { utterance_start_ms: now_ms, last_partial_ms: now_ms, ..self },
                None,
            ),
            VadInput::SpeechEnd { now_ms, duration_ms, samples } => (
                self,
                Some(
                    SegmentView {
                        samples: samples as nat,
                        start_ms: floor_sub(now_ms, duration_ms) as nat,
                        end_ms: now_ms as nat,
                        is_final: true,
                        segment_id: self.current_segment_id(),
                    },
                ),
            ),
            VadInput::Tick { now_ms, speech_active, buffered_samples } => {
                if self.partial_due(now_ms, speech_active, buffered_samples) {
                    (
                        Ingestion { last_partial_ms: now_ms, ..self },
                        Some(
                            SegmentView {
                                samples: buffered_samples as nat,
                                start_ms: self.utterance_start_ms as nat,
                                end_ms: now_ms as nat,
                                is_final: false,
                                segment_id: self.current_segment_id(),
                            },
                        ),
                    )
                } else {
                    (self, None)
                }
            },
        }
    }

    /// The state after all of `inputs`, and the segments sent on the way, in order.
    pub open spec fn run_spec(self, inputs: Seq<VadInput>) -> (Ingestion, Seq<SegmentView>)
        decreases inputs.len(),
    {
        if inputs.len() == 0 {
            (self, Seq::empty())
        } else {
            let (mid, sent) = self.run_spec(inputs.drop_last());
            let (next, segment) = mid.step_spec(inputs.last());
            match segment {
                Some(s) => (next, sent.push(s)),
                None => (next, sent),
            }
        }
    }

    /// The state after a datagram, and what to do with it.
    pub open spec fn accept_spec(self, d: Seq<u8>) -> (Ingestion, PacketStep) {
        let counted = Ingestion {
            packets: if self.packets < u64::MAX {
                (self.packets + 1) as u64
            } else {
                self.packets
            },
            ..self
        };
        if !is_rtp(d) {
            (counted, PacketStep::Malformed)
        } else if payload_end(d) == payload_start(d) {
            (counted, PacketStep::EmptyPayload)
        } else {
            let header = crate::rtp::header_of(d);
            let conceal = match self.last_seq {
                Some(prev) => if sequence_gap(prev, header.sequence_number)
                    < MAX_CONCEALED_PACKETS {
                    sequence_gap(prev, header.sequence_number) as u16
                } else {
                    MAX_CONCEALED_PACKETS
                },
                None => 0u16,
            };
            (
                Ingestion { last_seq: Some(header.sequence_number), ..counted },
                PacketStep::Decode {
                    conceal,
                    packet: RtpPacket {
                        header,
                        payload_offset: payload_start(d) as usize,
                        payload_len: (payload_end(d) - payload_start(d)) as usize,
                    },
                },
            )
        }
    }

    /// A fresh ingestion for the audio that `user_id` produces in `room_id`.
    pub fn new(room_id: ObjectId, user_id: ObjectId, partial_interval_ms: u64) -> (s: Ingestion)
        ensures
            s == (Ingestion {
                room_id,
                user_id,
                partial_interval_ms,
                last_seq: None,
                packets: 0,
                timeout_warned: false,
                utterance_start_ms: 0,
                last_partial_ms: 0,
            }),
    {
        Ingestion {
            room_id,
            user_id,
            partial_interval_ms,
            last_seq: None,
            packets: 0,
            timeout_warned: false,
            utterance_start_ms: 0,
            last_partial_ms: 0,
        }
    }

    /// Whether the next receive is the first and still to be timed: no packet
    /// has come and the missing first packet has not been reported yet.
    pub fn awaits_first_packet(&self) -> (b: bool)
        ensures
            b == (!self.timeout_warned && self.packets == 0),
    {
        !self.timeout_warned && self.packets == 0
    }

    /// Records that the first packet did not come in time. It is reported once.
    pub fn note_timeout(&mut self)
        ensures
            *final(self) == (Ingestion { timeout_warned: true, ..*old(self) }),
    {
        self.timeout_warned = true;
    }

    /// Whether the packet count is to be reported now: at the first packet
    /// and at every five-hundredth.
    pub fn reports_packet_count(&self) -> (b: bool)
        ensures
            b == (self.packets == 1 || self.packets % PACKET_REPORT_INTERVAL == 0),
    {
        self.packets == 1 || self.packets % PACKET_REPORT_INTERVAL == 0
    }

    /// Takes a datagram from the tap: counts it, parses it, and says whether
    /// to skip it or how many lost packets to conceal before decoding it.
    pub fn accept_packet(&mut self, data: &[u8]) -> (step: PacketStep)
        ensures
            (*final(self), step) == old(self).accept_spec(data@),
            step matches PacketStep::Decode { packet, .. } ==> packet.fits(data@),
    {
        if self.packets < u64::MAX {
            self.packets = self.packets + 1;
        }
        let packet = match RtpPacket::parse(data) {
            Some(p) => p,
            None => {
                return PacketStep::Malformed;
            },
        };
        if packet.payload_len == 0 {
            return PacketStep::EmptyPayload;
        }
        let conceal: u16 = match self.last_seq {
            Some(prev) => concealment_count(prev, packet.header.sequence_number),
            None => 0,
        };
        self.last_seq = Some(packet.header.sequence_number);
        PacketStep::Decode { conceal, packet }
    }

    /// Takes one report of the voice-activity detector and returns the
    /// segment to send to the recogniser, if the report calls for one.
    pub fn step(&mut self, input: &VadInput) -> (segment: Option<SpeechSegment>)
        ensures
            *final(self) == old(self).step_spec(*input).0,
            segment is Some <==> old(self).step_spec(*input).1 is Some,
            segment is Some ==> segment.unwrap()@ == old(self).step_spec(*input).1.unwrap(),
    {
        match *input {
            VadInput::SpeechStart { now_ms } => {
                self.utterance_start_ms = now_ms;
                self.last_partial_ms = now_ms;
                None
            },
            VadInput::SpeechEnd { now_ms, duration_ms, samples } => {
                let start_ms: u64 = if now_ms >= duration_ms {
                    now_ms - duration_ms
                } else {
                    0
                };
                Some(
                    SpeechSegment {
                        samples,
                        start_ms,
                        end_ms: now_ms,
                        is_final: true,
                        segment_id: segment_id(
                            &self.room_id,
                            &self.user_id,
                            self.utterance_start_ms,
                        ),
                    },
                )
            },
            VadInput::Tick { now_ms, speech_active, buffered_samples } => {
                let elapsed: u64 = if now_ms >= self.last_partial_ms {
                    now_ms - self.last_partial_ms
                } else {
                    0
                };
                if speech_active && elapsed >= self.partial_interval_ms && buffered_samples
                    >= MIN_PARTIAL_SAMPLES {
                    let segment = SpeechSegment {
                        samples: buffered_samples,
                        start_ms: self.utterance_start_ms,
                        end_ms: now_ms,
                        is_final: false,
                        segment_id: segment_id(
                            &self.room_id,
                            &self.user_id,
                            self.utterance_start_ms,
                        ),
                    };
                    self.last_partial_ms = now_ms;
                    Some(segment)
                } else {
                    None
                }
            },
        }
    }

    /// Takes the detector's reports for one packet, in order, and returns
    /// the segments to send to the recogniser.
    pub fn ingest(&mut self, inputs: &Vec<VadInput>) -> (segments: Vec<SpeechSegment>)
        ensures
            *final(self) == old(self).run_spec(inputs@).0,
            segments@.map_values(|s: SpeechSegment| s@) == old(self).run_spec(inputs@).1,
    {
        let mut segments: Vec<SpeechSegment> = Vec::new();
        let mut i: usize = 0;
        while i < inputs.len()
            invariant
                i <= inputs.len(),
                *self == old(self).run_spec(inputs@.take(i as int)).0,
                segments@.map_values(|s: SpeechSegment| s@) == old(self).run_spec(
                    inputs@.take(i as int),
                ).1,
            decreases inputs.len() - i,
        {
            let ghost before = segments@;
            proof {
                assert(inputs@.take(i as int + 1).drop_last() =~= inputs@.take(i as int));
            }
            match self.step(&inputs[i]) {
                Some(segment) => {
                    segments.push(segment);
                    proof {
                        assert(segments@.map_values(|s: SpeechSegment| s@) =~= before.map_values(
                            |s: SpeechSegment| s@,
                        ).push(segment@));
                    }
                },
                None => {},
            }
            i += 1;
        }
        proof {
            assert(inputs@.take(inputs@.len() as int) =~= inputs@);
        }
        segments
    }

    /// Takes the audio of one packet: the clock moves on by the samples
    /// that were decoded, the detector's findings are stamped with the
    /// audio time and taken in order, and a tick with the detector's state
    /// follows them. Returns the segments to send to the recogniser, in
    /// order: a final one for each end of speech, and after them a partial
    /// one where the tick finds one due.
    pub fn on_audio(
        &mut self,
        clock: &mut AudioClock,
        samples: usize,
        found: &Vec<Detected>,
        speech_active: bool,
        buffered_samples: usize,
    ) -> (segments: Vec<SpeechSegment>)
        ensures
            *final(clock) == old(clock).after(samples),
            *final(self) == old(self).run_spec(
                packet_inputs(
                    AudioClock::ms_of(final(clock).samples),
                    found@,
                    speech_active,
                    buffered_samples,
                ),
            ).0,
            views(segments@) == old(self).run_spec(
                packet_inputs(
                    AudioClock::ms_of(final(clock).samples),
                    found@,
                    speech_active,
                    buffered_samples,
                ),
            ).1,
    {
        clock.advance(samples);
        let now_ms = clock.now_ms();
        let mut inputs: Vec<VadInput> = Vec::new();
        let mut i: usize = 0;
        while i < found.len()
            invariant
                i <= found.len(),
                inputs@ == Seq::new(i as nat, |k: int| stamped(found@[k], now_ms)),
            decreases found.len() - i,
        {
            let input = match found[i] {
                Detected::SpeechStart => VadInput::SpeechStart { now_ms },
                Detected::SpeechEnd { duration_ms, samples } => VadInput::SpeechEnd {
                    now_ms,
                    duration_ms,
                    samples,
                },
            };
            inputs.push(input);
            proof {
                assert(inputs@ =~= Seq::new((i + 1) as nat, |k: int| stamped(found@[k], now_ms)));
            }
            i += 1;
        }
        inputs.push(VadInput::Tick { now_ms, speech_active, buffered_samples });
        proof {
            assert(inputs@ =~= packet_inputs(now_ms, found@, speech_active, buffered_samples));
        }
        let segments = self.ingest(&inputs);
        proof {
            assert(views(segments@) =~= segments@.map_values(|s: SpeechSegment| s@));
        }
        segments
    }
}

/// Within one utterance every segment carries the same identifier, and the
/// final one comes last. Starting from any state, let speech begin at
/// `start_ms`, let any number of ticks follow, then the end of speech: what
/// is sent to the recogniser is zero or more partial segments and then one
/// final segment, all with the identifier made from `start_ms`.
pub proof fn lemma_final_follows_its_partials(
    s: Ingestion,
    start_ms: u64,
    ticks: Seq<VadInput>,
    end: VadInput,
)
    requires
        forall|i: int| 0 <= i < ticks.len() ==> ticks[i] is Tick,
        end is SpeechEnd,
    ensures
        ({
            let inputs = (seq![VadInput::SpeechStart { now_ms: start_ms }] + ticks).push(end);
            let sent = s.run_spec(inputs).1;
            let id = segment_id_text(s.room_id@, s.user_id@, start_ms as nat);
            &&& sent.len() >= 1
            &&& sent.last().is_final
            &&& forall|k: int| 0 <= k < sent.len() ==> (#[trigger] sent[k]).segment_id == id
            &&& forall|k: int| 0 <= k < sent.len() - 1 ==> !(#[trigger] sent[k]).is_final
            &&& forall|k: int|
                0 <= k < sent.len() - 1 ==> (#[trigger] sent[k]).start_ms == start_ms
        }),
{
    let head = seq![VadInput::SpeechStart { now_ms: start_ms }] + ticks;
    lemma_ticks_send_partials(s, start_ms, ticks);
    let inputs = head.push(end);
    assert(inputs.drop_last() =~= head);
}

/// An utterance that lasts long enough is transcribed while it is spoken.
/// Starting from any state, let speech begin at `start_ms`, let ticks
/// follow of which one finds a first partial due, then the end of speech:
/// what is sent to the recogniser begins with a partial segment and ends
/// with the final one, and both carry the identifier made from `start_ms`.
pub proof fn lemma_long_utterance_sends_a_partial(
    s: Ingestion,
    start_ms: u64,
    ticks: Seq<VadInput>,
    end: VadInput,
    at: int,
)
    requires
        forall|i: int| 0 <= i < ticks.len() ==> ticks[i] is Tick,
        end is SpeechEnd,
        0 <= at < ticks.len(),
        s.first_partial_due(ticks[at], start_ms),
    ensures
        ({
            let inputs = (seq![VadInput::SpeechStart { now_ms: start_ms }] + ticks).push(end);
            let sent = s.run_spec(inputs).1;
            let id = segment_id_text(s.room_id@, s.user_id@, start_ms as nat);
            &&& sent.len() >= 2
            &&& !sent[0].is_final
            &&& sent[0].segment_id == id
            &&& sent.last().is_final
            &&& sent.last().segment_id == id
        }),
{
    let head = seq![VadInput::SpeechStart { now_ms: start_ms }] + ticks;
    lemma_ticks_send_partials(s, start_ms, ticks);
    let inputs = head.push(end);
    assert(inputs.drop_last() =~= head);
    let before = s.run_spec(head).1;
    assert(before.len() >= 1);
    assert(s.run_spec(inputs).1 == before.push(s.run_spec(inputs).1.last()));
}

/// With the audio clock, a tick during speech that comes once a second of
/// audio has passed since the utterance began finds a first partial due,
/// whatever the interval up to a second: the buffer then holds that second
/// at least, and the clock has moved on by a second.
pub proof fn lemma_tick_after_a_second_is_due(
    s: Ingestion,
    start: AudioClock,
    now: AudioClock,
    buffered: usize,
)
    requires
        s.partial_interval_ms <= 1000,
        now.samples - start.samples >= 1000 * SAMPLES_PER_MS,
        buffered >= now.samples - start.samples,
    ensures
        s.first_partial_due(
            VadInput::Tick {
                now_ms: AudioClock::ms_of(now.samples),
                speech_active: true,
                buffered_samples: buffered,
            },
            AudioClock::ms_of(start.samples),
        ),
{
}

/// An utterance of a second or more gets a partial transcript before its
/// final one. Let speech begin when the audio clock stands at `start`, let
/// ticks follow, one of them during speech when the clock stands a second
/// or more later and the buffer holds the speech since the start, then the
/// end of speech. For any interval up to a second, what is sent to the
/// recogniser begins with a partial segment and ends with the final one,
/// both under the identifier of the utterance.
pub proof fn lemma_second_of_speech_gets_a_partial(
    s: Ingestion,
    start: AudioClock,
    ticks: Seq<VadInput>,
    end: VadInput,
    at: int,
    now: AudioClock,
    buffered: usize,
)
    requires
        s.partial_interval_ms <= 1000,
        forall|i: int| 0 <= i < ticks.len() ==> ticks[i] is Tick,
        end is SpeechEnd,
        0 <= at < ticks.len(),
        ticks[at] == (VadInput::Tick {
            now_ms: AudioClock::ms_of(now.samples),
            speech_active: true,
            buffered_samples: buffered,
        }),
        now.samples - start.samples >= 1000 * SAMPLES_PER_MS,
        buffered >= now.samples - start.samples,
    ensures
        ({
            let start_ms = AudioClock::ms_of(start.samples);
            let inputs = (seq![VadInput::SpeechStart { now_ms: start_ms }] + ticks).push(end);
            let sent = s.run_spec(inputs).1;
            let id = segment_id_text(s.room_id@, s.user_id@, start_ms as nat);
            &&& sent.len() >= 2
            &&& !sent[0].is_final
            &&& sent[0].segment_id == id
            &&& sent.last().is_final
            &&& sent.last().segment_id == id
        }),
{
    lemma_tick_after_a_second_is_due(s, start, now, buffered);
    lemma_long_utterance_sends_a_partial(s, AudioClock::ms_of(start.samples), ticks, end, at);
}

/// After the start of speech at `start_ms` and any number of ticks, only
/// partial segments have been sent, all with the identifier made from
/// `start_ms`, and the utterance's start is unchanged.
proof fn lemma_ticks_send_partials(s: Ingestion, start_ms: u64, ticks: Seq<VadInput>)
    requires
        forall|i: int| 0 <= i < ticks.len() ==> ticks[i] is Tick,
    ensures
        ({
            let (after, sent) = s.run_spec(
                seq![VadInput::SpeechStart { now_ms: start_ms }] + ticks,
            );
            let id = segment_id_text(s.room_id@, s.user_id@, start_ms as nat);
            &&& after.utterance_start_ms == start_ms
            &&& after.room_id == s.room_id
            &&& after.user_id == s.user_id
            &&& after.partial_interval_ms == s.partial_interval_ms
            &&& sent.len() == 0 ==> after.last_partial_ms == start_ms
            &&& (exists|i: int| 0 <= i < ticks.len() && s.first_partial_due(ticks[i], start_ms))
                ==> sent.len() >= 1
            &&& forall|k: int|
                0 <= k < sent.len() ==> {
                    &&& (#[trigger] sent[k]).segment_id == id
                    &&& !sent[k].is_final
                    &&& sent[k].start_ms == start_ms
                }
        }),
    decreases ticks.len(),
{
    let first = seq![VadInput::SpeechStart { now_ms: start_ms }];
    if ticks.len() == 0 {
        assert(first + ticks =~= first);
        assert(first.drop_last() =~= Seq::<VadInput>::empty());
        reveal_with_fuel(Ingestion::run_spec, 2);
    } else {
        let earlier = ticks.drop_last();
        lemma_ticks_send_partials(s, start_ms, earlier);
        assert((first + ticks).drop_last() =~= first + earlier);
        assert((first + ticks).last() == ticks.last());
        let (mid, sent_before) = s.run_spec(first + earlier);
        let sent = s.run_spec(first + ticks).1;
        assert(sent.len() >= sent_before.len());
        if exists|i: int| 0 <= i < ticks.len() && s.first_partial_due(ticks[i], start_ms) {
            let i = choose|i: int| 0 <= i < ticks.len() && s.first_partial_due(ticks[i], start_ms);
            if i < earlier.len() {
                assert(earlier[i] == ticks[i]);
            } else if sent_before.len() == 0 {
                assert(ticks[i] == ticks.last());
                assert(mid.last_partial_ms == start_ms);
                assert(mid.step_spec(ticks.last()).1 is Some);
            }
        }
    }
}

} // verus!
