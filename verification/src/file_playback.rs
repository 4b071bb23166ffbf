use crate::ids::ObjectId;
use crate::ingest::{floor_sub, SAMPLES_PER_MS, VAD_CHUNK_SIZE};
use crate::seqs::views;
use crate::transcript::{segment_id, segment_id_text, SegmentView, SpeechSegment};
use vstd::prelude::*;

verus! {

/// After the last chunk of a file, the detector is fed this many chunks of
/// silence, so that an utterance still in progress comes to its end.
pub const FLUSH_CHUNKS: usize = 30;

/// The end of an utterance, as the voice-activity detector reported it for a chunk.
#[derive(Clone, Copy, Debug, PartialEq, Eq, Structural)]
pub struct SpeechEnd {
    /// How long the utterance lasted.
    pub duration_ms: u64,
    /// How many samples the utterance holds.
    pub samples: usize,
}

/// The sample offset after one more chunk; it stops at the largest number.
pub open spec fn next_offset(offset: u64) -> u64 {
    if offset + VAD_CHUNK_SIZE <= u64::MAX {
        (offset + VAD_CHUNK_SIZE) as u64
    } else {
        u64::MAX
    }
}

/// The sample offset at which chunk `index` begins, counting from `start`.
pub open spec fn chunk_offset(start: u64, index: nat) -> u64
    decreases index,
{
    if index == 0 {
        start
    } else {
        next_offset(chunk_offset(start, (index - 1) as nat))
    }
}

/// The final segment of an utterance that the detector reported at the
/// sample offset `offset`: it ends at the offset and begins its duration
/// earlier, and is named after its beginning.
pub open spec fn file_segment(room: nat, user: nat, offset: u64, end: SpeechEnd) -> SegmentView {
    let end_ms = offset / SAMPLES_PER_MS;
    let start_ms = floor_sub(end_ms, end.duration_ms);
    SegmentView {
        samples: end.samples as nat,
        start_ms: start_ms as nat,
        end_ms: end_ms as nat,
        is_final: true,
        segment_id: segment_id_text(room, user, start_ms as nat),
    }
}

/// The segments of the utterances that the detector reported for one chunk.
pub open spec fn chunk_segments(room: nat, user: nat, offset: u64, ends: Seq<SpeechEnd>) -> Seq<
    SegmentView,
> {
    Seq::new(ends.len(), |i: int| file_segment(room, user, offset, ends[i]))
}

/// The segments of a file, chunk by chunk: `reports[i]` is what the
/// detector reported for chunk `i`, the first chunk beginning at `start`.
pub open spec fn file_segments(room: nat, user: nat, start: u64, reports: Seq<Seq<SpeechEnd>>)
    -> Seq<SegmentView>
    decreases reports.len(),
{
    if reports.len() == 0 {
        Seq::empty()
    } else {
        file_segments(room, user, start, reports.drop_last()) + chunk_segments(
            room,
            user,
            chunk_offset(start, (reports.len() - 1) as nat),
            reports.last(),
        )
    }
}

/// The single segment that stands for a whole file where no detector is at hand.
pub open spec fn whole_file_view(room: nat, user: nat, total_samples: usize) -> SegmentView {
    SegmentView {
        samples: total_samples as nat,
        start_ms: 0,
        end_ms: (total_samples as u64 / SAMPLES_PER_MS) as nat,
        is_final: true,
        segment_id: segment_id_text(room, user, 0),
    }
}

/// How many whole chunks a file of `total_samples` samples gives the
/// detector. What is left over at the end is not fed.
pub fn full_chunks(total_samples: usize) -> (chunks: usize)
    ensures
        chunks == total_samples / VAD_CHUNK_SIZE,
{
    total_samples / VAD_CHUNK_SIZE
}

/// The clock of a file playback: how many samples the detector has been fed.
#[derive(Clone, Copy, Debug)]
pub struct FilePlayback {
    pub room_id: ObjectId,
    pub user_id: ObjectId,
    pub sample_offset: u64,
}

impl FilePlayback {
    /// A playback at the beginning of its file.
    pub fn new(room_id: ObjectId, user_id: ObjectId) -> (playback: FilePlayback)
        ensures
            playback == (FilePlayback { room_id, user_id, sample_offset: 0 }),
    {
        FilePlayback { room_id, user_id, sample_offset: 0 }
    }

    /// Takes what the detector reported for the next chunk and returns the
    /// final segments of the utterances that ended in it. A playback sends
    /// final segments only.
    pub fn on_chunk(&mut self, ends: &Vec<SpeechEnd>) -> (segments: Vec<SpeechSegment>)
        ensures
            views(segments@) == chunk_segments(
                old(self).room_id@,
                old(self).user_id@,
                old(self).sample_offset,
                ends@,
            ),
            *final(self) == (FilePlayback {
                sample_offset: next_offset(old(self).sample_offset),
                ..*old(self)
            }),
    {
        let mut segments: Vec<SpeechSegment> = Vec::new();
        let end_ms: u64 = self.sample_offset / SAMPLES_PER_MS;
        let ghost all = chunk_segments(self.room_id@, self.user_id@, self.sample_offset, ends@);
        let mut i: usize = 0;
        proof {
            assert(views(segments@) =~= all.take(0));
        }
        while i < ends.len()
            invariant
                i <= ends.len(),
                *self == *old(self),
                end_ms == self.sample_offset / SAMPLES_PER_MS,
                all == chunk_segments(self.room_id@, self.user_id@, self.sample_offset, ends@),
                views(segments@) == all.take(i as int),
            decreases ends.len() - i,
        {
            let end = ends[i];
            let start_ms: u64 = if end_ms >= end.duration_ms {
                end_ms - end.duration_ms
            } else {
                0
            };
            let ghost before = views(segments@);
            let segment = SpeechSegment {
                samples: end.samples,
                start_ms,
                end_ms,
                is_final: true,
                segment_id: segment_id(&self.room_id, &self.user_id, start_ms),
            };
            segments.push(segment);
            proof {
                assert(segment@ == all[i as int]);
                assert(views(segments@) =~= before.push(segment@));
                assert(views(segments@) =~= all.take(i as int + 1));
            }
            i += 1;
        }
        proof {
            assert(all.take(all.len() as int) =~= all);
        }
        self.sample_offset = if self.sample_offset <= u64::MAX - VAD_CHUNK_SIZE as u64 {
            self.sample_offset + VAD_CHUNK_SIZE as u64
        } else {
            u64::MAX
        };
        segments
    }
}

/// The segments of a file, from what the detector reported chunk by chunk:
/// for the whole chunks of the file first, then for the chunks of silence
/// that flush it.
pub fn run_vad(room_id: ObjectId, user_id: ObjectId, reports: &Vec<Vec<SpeechEnd>>) -> (segments:
    Vec<SpeechSegment>)
    ensures
        views(segments@) == file_segments(
            room_id@,
            user_id@,
            0,
            Seq::new(reports@.len(), |i: int| reports@[i]@),
        ),
{
    let ghost all = Seq::new(reports@.len(), |i: int| reports@[i]@);
    let mut playback = FilePlayback::new(room_id, user_id);
    let mut segments: Vec<SpeechSegment> = Vec::new();
    let mut i: usize = 0;
    proof {
        assert(views(segments@) =~= file_segments(room_id@, user_id@, 0, all.take(0)));
    }
    while i < reports.len()
        invariant
            i <= reports.len(),
            all == Seq::new(reports@.len(), |i: int| reports@[i]@),
            playback.room_id == room_id,
            playback.user_id == user_id,
            playback.sample_offset == chunk_offset(0, i as nat),
            views(segments@) == file_segments(room_id@, user_id@, 0, all.take(i as int)),
        decreases reports.len() - i,
    {
        let ghost before = views(segments@);
        let mut found = playback.on_chunk(&reports[i]);
        let ghost added = views(found@);
        segments.append(&mut found);
        proof {
            assert(all.take(i as int + 1).drop_last() =~= all.take(i as int));
            assert(all.take(i as int + 1).last() == reports@[i as int]@);
            assert(views(segments@) =~= before + added);
        }
        i += 1;
    }
    proof {
        assert(all.take(all.len() as int) =~= all);
    }
    segments
}

/// The single segment that stands for a whole file where no detector is
/// at hand: it begins at zero and is as long as the file.
pub fn whole_file_segment(room_id: &ObjectId, user_id: &ObjectId, total_samples: usize) -> (segment:
    SpeechSegment)
    ensures
        segment@ == whole_file_view(room_id@, user_id@, total_samples),
{
    SpeechSegment {
        samples: total_samples,
        start_ms: 0,
        end_ms: total_samples as u64 / SAMPLES_PER_MS,
        is_final: true,
        segment_id: segment_id(room_id, user_id, 0),
    }
}

/// The ends of the utterances of a file in the order of their report, each
/// with the time in milliseconds at which it was reported.
pub open spec fn timed_ends(start: u64, reports: Seq<Seq<SpeechEnd>>) -> Seq<(u64, SpeechEnd)>
    decreases reports.len(),
{
    if reports.len() == 0 {
        Seq::empty()
    } else {
        let at = chunk_offset(start, (reports.len() - 1) as nat) / SAMPLES_PER_MS;
        timed_ends(start, reports.drop_last()) + Seq::new(
            reports.last().len(),
            |i: int| (at, reports.last()[i]),
        )
    }
}

/// No utterance is longer than the time since the utterance before it ended.
pub open spec fn utterances_apart(ends: Seq<(u64, SpeechEnd)>) -> bool {
    forall|k: int|
        0 < k < ends.len() ==> (#[trigger] ends[k]).1.duration_ms <= ends[k].0 - ends[k - 1].0
}

/// Where no utterance is longer than the time since the one before it
/// ended, the final segments of a file come out in the order of their
/// beginning: the start times never decrease.
pub proof fn lemma_file_segments_in_order(
    room: nat,
    user: nat,
    start: u64,
    reports: Seq<Seq<SpeechEnd>>,
)
    requires
        utterances_apart(timed_ends(start, reports)),
    ensures
        ({
            let segments = file_segments(room, user, start, reports);
            forall|a: int, b: int|
                0 <= a <= b < segments.len() ==> segments[a].start_ms <= segments[b].start_ms
        }),
{
    let segments = file_segments(room, user, start, reports);
    let ends = timed_ends(start, reports);
    lemma_segments_follow_ends(room, user, start, reports);
    assert forall|a: int, b: int| 0 <= a <= b < segments.len() implies segments[a].start_ms
        <= segments[b].start_ms by {
        lemma_starts_ordered(segments, ends, a, b);
    }
}

/// Whatever the detector reports, a playback sends final segments only,
/// and in the order in which their utterances ended: the end times never
/// decrease.
pub proof fn lemma_file_segments_end_in_order(
    room: nat,
    user: nat,
    start: u64,
    reports: Seq<Seq<SpeechEnd>>,
)
    ensures
        ({
            let segments = file_segments(room, user, start, reports);
            &&& forall|k: int| 0 <= k < segments.len() ==> (#[trigger] segments[k]).is_final
            &&& forall|a: int, b: int|
                0 <= a <= b < segments.len() ==> segments[a].end_ms <= segments[b].end_ms
        }),
{
    lemma_ends_bounded(room, user, start, reports);
}

/// Later chunks begin at later offsets.
proof fn lemma_offsets_grow(start: u64, i: nat, j: nat)
    requires
        i <= j,
    ensures
        chunk_offset(start, i) <= chunk_offset(start, j),
    decreases j,
{
    if i < j {
        lemma_offsets_grow(start, i, (j - 1) as nat);
    }
}

/// The segments of a file are final, end in order, and none ends after
/// the offset of the last chunk.
proof fn lemma_ends_bounded(room: nat, user: nat, start: u64, reports: Seq<Seq<SpeechEnd>>)
    ensures
        ({
            let segments = file_segments(room, user, start, reports);
            &&& forall|k: int| 0 <= k < segments.len() ==> (#[trigger] segments[k]).is_final
            &&& forall|a: int, b: int|
                0 <= a <= b < segments.len() ==> segments[a].end_ms <= segments[b].end_ms
            &&& reports.len() > 0 ==> forall|k: int|
                0 <= k < segments.len() ==> (#[trigger] segments[k]).end_ms <= chunk_offset(
                    start,
                    (reports.len() - 1) as nat,
                ) / SAMPLES_PER_MS
        }),
    decreases reports.len(),
{
    if reports.len() > 0 {
        let earlier = reports.drop_last();
        lemma_ends_bounded(room, user, start, earlier);
        let before = file_segments(room, user, start, earlier);
        let at = chunk_offset(start, (reports.len() - 1) as nat);
        let last = chunk_segments(room, user, at, reports.last());
        let segments = file_segments(room, user, start, reports);
        assert(segments == before + last);
        if earlier.len() > 0 {
            lemma_offsets_grow(start, (earlier.len() - 1) as nat, (reports.len() - 1) as nat);
        }
        assert forall|k: int| 0 <= k < segments.len() implies (#[trigger] segments[k]).is_final
            && segments[k].end_ms <= at / SAMPLES_PER_MS && (k >= before.len()
            ==> segments[k].end_ms == at / SAMPLES_PER_MS) by {
            if k < before.len() {
                assert(segments[k] == before[k]);
            } else {
                assert(segments[k] == last[k - before.len()]);
            }
        }
        assert forall|a: int, b: int| 0 <= a <= b < segments.len() implies segments[a].end_ms
            <= segments[b].end_ms by {
            if b < before.len() {
                assert(segments[a] == before[a]);
                assert(segments[b] == before[b]);
            }
        }
    }
}

/// Each segment of a file is the segment of the utterance end of the same
/// place, and ends when that was reported.
proof fn lemma_segments_follow_ends(room: nat, user: nat, start: u64, reports: Seq<Seq<SpeechEnd>>)
    ensures
        file_segments(room, user, start, reports).len() == timed_ends(start, reports).len(),
        forall|k: int|
            0 <= k < timed_ends(start, reports).len() ==> {
                let (at, end) = #[trigger] timed_ends(start, reports)[k];
                let s = file_segments(room, user, start, reports)[k];
                s.end_ms == at && s.start_ms == floor_sub(at, end.duration_ms)
            },
    decreases reports.len(),
{
    if reports.len() > 0 {
        lemma_segments_follow_ends(room, user, start, reports.drop_last());
    }
}

proof fn lemma_starts_ordered(
    segments: Seq<SegmentView>,
    ends: Seq<(u64, SpeechEnd)>,
    a: int,
    b: int,
)
    requires
        utterances_apart(ends),
        segments.len() == ends.len(),
        forall|k: int|
            0 <= k < ends.len() ==> {
                let (at, end) = #[trigger] ends[k];
                let s = segments[k];
                s.end_ms == at && s.start_ms == floor_sub(at, end.duration_ms)
            },
        0 <= a <= b < segments.len(),
    ensures
        segments[a].start_ms <= segments[b].start_ms,
    decreases b - a,
{
    if a < b {
        lemma_starts_ordered(segments, ends, a, b - 1);
        let (at, end) = ends[b];
        let (before, _) = ends[b - 1];
        assert(end.duration_ms <= at - before);
        assert(segments[b - 1].start_ms <= before);
    }
}

} // verus!
