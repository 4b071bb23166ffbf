use crate::text::opt_text;
use crate::seqs::views;
use crate::text::{
    chars_of, contains, contains_text, digit_value, find, first_occurrence, is_digits,
    numeral_value, parse_digits, parsed_u64, slice_of, starts_with, string_of, trim_chars,
    trimmed,
};
use crate::wer::joined;
use vstd::prelude::*;
use vstd::utf8::encode_utf8;

verus! {

/// A speaker's name in a subtitle is shorter than this many bytes.
pub const SPEAKER_NAME_LIMIT: usize = 50;

/// The last entry of a transcript is taken to last this long.
pub const LAST_ENTRY_MS: u64 = 5000;

/// Reading `s` from the left: the lines completed so far and the line in progress.
pub open spec fn scan_lines(s: Seq<char>) -> (Seq<Seq<char>>, Seq<char>)
    decreases s.len(),
{
    if s.len() == 0 {
        (Seq::empty(), Seq::empty())
    } else {
        let (done, current) = scan_lines(s.drop_last());
        if s.last() == '\n' {
            (done.push(current), Seq::empty())
        } else {
            (done, current.push(s.last()))
        }
    }
}

/// The lines of a text: what stands between line feeds. A line feed at
/// the very end begins no further line.
pub open spec fn lines_of(s: Seq<char>) -> Seq<Seq<char>> {
    let (done, current) = scan_lines(s);
    if current.len() > 0 {
        done.push(current)
    } else {
        done
    }
}

/// The lines of a text, each without whitespace at its ends.
pub open spec fn trimmed_lines(s: Seq<char>) -> Seq<Seq<char>> {
    Seq::new(lines_of(s).len(), |i: int| trimmed(lines_of(s)[i]))
}

/// The first three digits behind the point, as thousandths.
pub open spec fn thousandths(fraction: Seq<char>) -> nat {
    let d0 = if fraction.len() > 0 {
        digit_value(fraction[0]).unwrap()
    } else {
        0
    };
    let d1 = if fraction.len() > 1 {
        digit_value(fraction[1]).unwrap()
    } else {
        0
    };
    let d2 = if fraction.len() > 2 {
        digit_value(fraction[2]).unwrap()
    } else {
        0
    };
    d0 * 100 + d1 * 10 + d2
}

/// A thousand times the number that a decimal numeral denotes: digits,
/// or digits on one or both sides of a point. Digits behind the third
/// decimal are dropped. `None` for any other text.
pub open spec fn fixed3(s: Seq<char>) -> Option<nat> {
    match first_occurrence(s, seq!['.']) {
        None => if s.len() > 0 && is_digits(s) {
            Some(numeral_value(s) * 1000)
        } else {
            None
        },
        Some(p) => {
            let whole = s.take(p);
            let fraction = s.skip(p + 1);
            if (whole.len() > 0 || fraction.len() > 0) && is_digits(whole) && is_digits(
                fraction,
            ) {
                Some(numeral_value(whole) * 1000 + thousandths(fraction))
            } else {
                None
            }
        },
    }
}

/// The parts of a text that holds `separator` exactly `count` times,
/// where `count` is one or two: what stands before, between and behind.
pub open spec fn split_at_each(s: Seq<char>, separator: Seq<char>, count: nat) -> Option<
    Seq<Seq<char>>,
>
    decreases count,
{
    if count == 0 {
        if contains_text(s, separator) {
            None
        } else {
            Some(seq![s])
        }
    } else {
        match first_occurrence(s, separator) {
            None => None,
            Some(p) => match split_at_each(
                s.skip(p + separator.len()),
                separator,
                (count - 1) as nat,
            ) {
                None => None,
                Some(rest) => Some(seq![s.take(p)] + rest),
            },
        }
    }
}

/// `s` with every comma replaced by a point.
pub open spec fn pointed(s: Seq<char>) -> Seq<char> {
    Seq::new(
        s.len(),
        |i: int|
            if s[i] == ',' {
                '.'
            } else {
                s[i]
            },
    )
}

/// `n` as a 64-bit number, if it fits.
pub open spec fn fits_u64(n: Option<nat>) -> Option<u64> {
    match n {
        Some(v) => if v <= u64::MAX {
            Some(v as u64)
        } else {
            None
        },
        None => None,
    }
}

/// The milliseconds that a subtitle time `HH:MM:SS,mmm` denotes: hours,
/// minutes and seconds separated by colons, a comma or a point before the
/// decimals.
pub open spec fn srt_time_ms(s: Seq<char>) -> Option<u64> {
    match split_at_each(pointed(s), seq![':'], 2) {
        None => None,
        Some(parts) => match (fixed3(parts[0]), fixed3(parts[1]), fixed3(parts[2])) {
            (Some(h), Some(m), Some(sec)) => fits_u64(Some(h * 3600 + m * 60 + sec)),
            _ => None,
        },
    }
}

/// The milliseconds that a transcript time `M:SS` denotes.
pub open spec fn mm_ss_ms(s: Seq<char>) -> Option<u64> {
    match split_at_each(s, seq![':'], 1) {
        None => None,
        Some(parts) => match (fixed3(parts[0]), fixed3(parts[1])) {
            (Some(m), Some(sec)) => fits_u64(Some(m * 60 + sec)),
            _ => None,
        },
    }
}

/// The start and the end that a subtitle's time line denotes: two times
/// with an arrow between them.
pub open spec fn timestamp_line_ms(line: Seq<char>) -> Option<(u64, u64)> {
    match split_at_each(line, "-->"@, 1) {
        None => None,
        Some(parts) => match (srt_time_ms(trimmed(parts[0])), srt_time_ms(trimmed(parts[1]))) {
            (Some(start), Some(end)) => Some((start, end)),
            _ => None,
        },
    }
}

/// The number that a subtitle's index line denotes: digits, with or without a plus sign.
pub open spec fn index_of_line(line: Seq<char>) -> Option<usize> {
    let digits = if line.len() > 0 && line[0] == '+' {
        line.skip(1)
    } else {
        line
    };
    match parsed_u64(digits) {
        Some(n) => if n <= usize::MAX {
            Some(n as usize)
        } else {
            None
        },
        None => None,
    }
}

/// The speaker and the words of a subtitle's text: what stands before the
/// first colon and space is the speaker's name, if it is short and holds
/// no two spaces in a row.
pub open spec fn speaker_split(raw: Seq<char>) -> (Option<Seq<char>>, Seq<char>) {
    match first_occurrence(raw, ": "@) {
        None => (None, raw),
        Some(p) => {
            let candidate = raw.take(p);
            if encode_utf8(candidate).len() < SPEAKER_NAME_LIMIT && !contains_text(
                candidate,
                "  "@,
            ) {
                (Some(candidate), raw.skip(p + 2))
            } else {
                (None, raw)
            }
        },
    }
}

/// What a reader of blocks expects next.
#[derive(Clone, Copy, Debug, PartialEq, Eq, Structural)]
pub enum Expect {
    /// The first line of a block.
    Head,
    /// The time line of a block.
    Time,
    /// The text of a block, or its end.
    Text,
}

/// Where a reader of blocks stands.
pub ghost struct BlockState {
    pub expect: Expect,
    pub index: usize,
    pub speaker: Seq<char>,
    pub start_ms: u64,
    pub end_ms: u64,
    pub parts: Seq<Seq<char>>,
}

/// The state of a reader before its first line.
pub open spec fn initial_state() -> BlockState {
    BlockState {
        expect: Expect::Head,
        index: 0,
        speaker: Seq::empty(),
        start_ms: 0,
        end_ms: 0,
        parts: Seq::empty(),
    }
}

/// What a subtitle entry holds, as mathematical values.
pub ghost struct SrtView {
    pub index: usize,
    pub start_ms: u64,
    pub end_ms: u64,
    pub speaker: Option<Seq<char>>,
    pub text: Seq<char>,
}

/// A single subtitle entry. Times are in milliseconds.
#[derive(Debug)]
pub struct SrtEntry {
    pub index: usize,
    pub start_ms: u64,
    pub end_ms: u64,
    pub speaker: Option<String>,
    pub text: String,
}

impl View for SrtEntry {
    type V = SrtView;

    open spec fn view(&self) -> SrtView {
        SrtView {
            index: self.index,
            start_ms: self.start_ms,
            end_ms: self.end_ms,
            speaker: opt_text(self.speaker),
            text: self.text@,
        }
    }
}

/// The entry that a block of a subtitle file gives.
pub open spec fn srt_entry_of(state: BlockState) -> SrtView {
    let (speaker, text) = speaker_split(joined(state.parts));
    SrtView { index: state.index, start_ms: state.start_ms, end_ms: state.end_ms, speaker, text }
}

/// Reading the lines of a subtitle file from the first: the entries
/// completed so far and where the reader stands. A block is an index line,
/// a time line and text up to a blank line; a line that is no index where
/// one is expected is passed over, and so is a block whose time line is
/// none.
pub open spec fn srt_scan(lines: Seq<Seq<char>>) -> (Seq<SrtView>, BlockState)
    decreases lines.len(),
{
    if lines.len() == 0 {
        (Seq::empty(), initial_state())
    } else {
        let (done, state) = srt_scan(lines.drop_last());
        let line = lines.last();
        match state.expect {
            Expect::Head => match index_of_line(line) {
                Some(index) => (done, BlockState { expect: Expect::Time, index, ..state }),
                None => (done, state),
            },
            Expect::Time => match timestamp_line_ms(line) {
                Some((start_ms, end_ms)) => (
                    done,
                    BlockState {
                        expect: Expect::Text,
                        start_ms,
                        end_ms,
                        parts: Seq::empty(),
                        ..state
                    },
                ),
                None => (done, BlockState { expect: Expect::Head, ..state }),
            },
            Expect::Text => if line.len() == 0 {
                (done.push(srt_entry_of(state)), BlockState { expect: Expect::Head, ..state })
            } else {
                (done, BlockState { parts: state.parts.push(line), ..state })
            },
        }
    }
}

/// The entries of a subtitle file in the order of the file.
pub open spec fn srt_blocks(lines: Seq<Seq<char>>) -> Seq<SrtView> {
    let (done, state) = srt_scan(lines);
    if state.expect == Expect::Text {
        done.push(srt_entry_of(state))
    } else {
        done
    }
}

/// Whether an entry with the start and the text of `e` is among `entries`.
pub open spec fn has_twin(entries: Seq<SrtView>, e: SrtView) -> bool {
    exists|i: int|
        0 <= i < entries.len() && (#[trigger] entries[i]).start_ms == e.start_ms && entries[i].text
            == e.text
}

/// The entries without those that repeat the start and the text of an earlier one.
pub open spec fn deduped(entries: Seq<SrtView>) -> Seq<SrtView>
    decreases entries.len(),
{
    if entries.len() == 0 {
        Seq::empty()
    } else {
        let kept = deduped(entries.drop_last());
        if has_twin(kept, entries.last()) {
            kept
        } else {
            kept.push(entries.last())
        }
    }
}

/// Where an entry that starts at `start_ms` goes into a list in the order
/// of the starts: behind every entry that starts no later.
pub open spec fn place_for(sorted: Seq<SrtView>, start_ms: u64) -> int
    decreases sorted.len(),
{
    if sorted.len() == 0 {
        0
    } else if sorted.last().start_ms <= start_ms {
        sorted.len() as int
    } else {
        place_for(sorted.drop_last(), start_ms)
    }
}

/// The entries in the order of their starts; entries with the same start keep their order.
pub open spec fn sorted_by_start(entries: Seq<SrtView>) -> Seq<SrtView>
    decreases entries.len(),
{
    if entries.len() == 0 {
        Seq::empty()
    } else {
        let sorted = sorted_by_start(entries.drop_last());
        sorted.insert(place_for(sorted, entries.last().start_ms), entries.last())
    }
}

/// The entries numbered from one.
pub open spec fn renumbered(entries: Seq<SrtView>) -> Seq<SrtView> {
    Seq::new(entries.len(), |i: int| SrtView { index: (i + 1) as usize, ..entries[i] })
}

/// The entries of a subtitle file: read block by block, repetitions
/// removed, in the order of their starts, numbered from one.
pub open spec fn srt_entries(content: Seq<char>) -> Seq<SrtView> {
    renumbered(sorted_by_start(deduped(srt_blocks(trimmed_lines(content)))))
}

/// What a transcript entry holds, as mathematical values.
pub ghost struct TxtView {
    pub speaker: Seq<char>,
    pub start_ms: u64,
    pub end_ms: u64,
    pub text: Seq<char>,
}

/// A single entry of a reference transcript. Times are in milliseconds.
#[derive(Debug)]
pub struct TxtEntry {
    pub speaker: String,
    pub start_ms: u64,
    /// Estimated end: the start of the next entry, or five seconds after
    /// the start for the last entry.
    pub end_ms: u64,
    pub text: String,
}

impl View for TxtEntry {
    type V = TxtView;

    open spec fn view(&self) -> TxtView {
        TxtView {
            speaker: self.speaker@,
            start_ms: self.start_ms,
            end_ms: self.end_ms,
            text: self.text@,
        }
    }
}

/// The entries completed so far, with the block in progress where it holds text.
pub open spec fn with_txt_block(done: Seq<TxtView>, state: BlockState) -> Seq<TxtView> {
    if state.parts.len() > 0 {
        done.push(
            TxtView {
                speaker: state.speaker,
                start_ms: state.start_ms,
                end_ms: 0,
                text: joined(state.parts),
            },
        )
    } else {
        done
    }
}

/// Reading the lines of a transcript from the first: the entries
/// completed so far, their ends not yet set, and where the reader stands.
/// A block is a speaker line beginning with `SPK_`, a time line and text up
/// to a blank line or the next speaker line.
pub open spec fn txt_scan(lines: Seq<Seq<char>>) -> (Seq<TxtView>, BlockState)
    decreases lines.len(),
{
    if lines.len() == 0 {
        (Seq::empty(), initial_state())
    } else {
        let (done, state) = txt_scan(lines.drop_last());
        let line = lines.last();
        let speaks = "SPK_"@.is_prefix_of(line);
        match state.expect {
            Expect::Head => if speaks {
                (done, BlockState { expect: Expect::Time, speaker: line, ..state })
            } else {
                (done, state)
            },
            Expect::Time => match mm_ss_ms(line) {
                Some(start_ms) => (
                    done,
                    BlockState { expect: Expect::Text, start_ms, parts: Seq::empty(), ..state },
                ),
                None => (done, BlockState { expect: Expect::Head, ..state }),
            },
            Expect::Text => if line.len() == 0 {
                (with_txt_block(done, state), BlockState { expect: Expect::Head, ..state })
            } else if speaks {
                (
                    with_txt_block(done, state),
                    BlockState { expect: Expect::Time, speaker: line, ..state },
                )
            } else {
                (done, BlockState { parts: state.parts.push(line), ..state })
            },
        }
    }
}

/// The entries of a transcript in the order of the file, their ends not yet set.
pub open spec fn txt_blocks(lines: Seq<Seq<char>>) -> Seq<TxtView> {
    let (done, state) = txt_scan(lines);
    if state.expect == Expect::Text {
        with_txt_block(done, state)
    } else {
        done
    }
}

/// `a + b`, or the largest number where that is smaller.
pub open spec fn capped_sum(a: u64, b: u64) -> u64 {
    if a + b <= u64::MAX {
        (a + b) as u64
    } else {
        u64::MAX
    }
}

/// The entries with their ends set: each ends where the next begins, the
/// last five seconds after it began.
pub open spec fn with_ends(entries: Seq<TxtView>) -> Seq<TxtView> {
    Seq::new(
        entries.len(),
        |i: int|
            TxtView {
                end_ms: if i + 1 < entries.len() {
                    entries[i + 1].start_ms
                } else {
                    capped_sum(entries[i].start_ms, LAST_ENTRY_MS)
                },
                ..entries[i]
            },
    )
}

/// The entries of a reference transcript.
pub open spec fn txt_entries(content: Seq<char>) -> Seq<TxtView> {
    with_ends(txt_blocks(trimmed_lines(content)))
}


/// Splits a text into its lines and trims each.
pub fn read_lines(content: &str) -> (lines: Vec<Vec<char>>)
    ensures
        views(lines@) == trimmed_lines(content@),
{
    let chars = chars_of(content);
    let mut raw: Vec<Vec<char>> = Vec::new();
    let mut current: Vec<char> = Vec::new();
    let mut i: usize = 0;
    proof {
        assert(views(raw@) =~= Seq::<Seq<char>>::empty());
    }
    while i < chars.len()
        invariant
            i <= chars.len(),
            views(raw@) == scan_lines(chars@.take(i as int)).0,
            current@ == scan_lines(chars@.take(i as int)).1,
        decreases chars.len() - i,
    {
        let ghost before = views(raw@);
        proof {
            assert(chars@.take(i as int + 1).drop_last() =~= chars@.take(i as int));
        }
        if chars[i] == '\n' {
            let ghost line = current@;
            raw.push(current);
            current = Vec::new();
            proof {
                assert(views(raw@) =~= before.push(line));
            }
        } else {
            current.push(chars[i]);
        }
        i += 1;
    }
    proof {
        assert(chars@.take(chars@.len() as int) =~= chars@);
    }
    if current.len() > 0 {
        let ghost before = views(raw@);
        let ghost line = current@;
        raw.push(current);
        proof {
            assert(views(raw@) =~= before.push(line));
        }
    }
    let ghost all = views(raw@);
    let mut lines: Vec<Vec<char>> = Vec::new();
    let mut k: usize = 0;
    proof {
        assert(views(lines@) =~= trimmed_lines(content@).take(0));
    }
    while k < raw.len()
        invariant
            k <= raw.len(),
            all == views(raw@),
            all == lines_of(content@),
            views(lines@) == trimmed_lines(content@).take(k as int),
        decreases raw.len() - k,
    {
        let ghost before = views(lines@);
        let line = trim_chars(&raw[k]);
        let ghost view = line@;
        lines.push(line);
        proof {
            assert(all[k as int] == raw@[k as int]@);
            assert(views(lines@) =~= before.push(view));
            assert(views(lines@) =~= trimmed_lines(content@).take(k as int + 1));
        }
        k += 1;
    }
    proof {
        let t = trimmed_lines(content@);
        assert(t.take(t.len() as int) =~= t);
    }
    lines
}

/// Whether every character is a decimal digit.
fn all_digits(v: &Vec<char>) -> (b: bool)
    ensures
        b == is_digits(v@),
{
    let mut i: usize = 0;
    while i < v.len()
        invariant
            i <= v.len(),
            forall|k: int| 0 <= k < i ==> (#[trigger] digit_value(v@[k])) is Some,
        decreases v.len() - i,
    {
        let c: u32 = v[i] as u32;
        if c < 48 || c > 57 {
            assert(digit_value(v@[i as int]) is None);
            return false;
        }
        i += 1;
    }
    true
}

fn digit_at(v: &Vec<char>, i: usize) -> (d: u64)
    requires
        is_digits(v@),
    ensures
        d == (if i < v@.len() {
            digit_value(v@[i as int]).unwrap()
        } else {
            0nat
        }),
        d <= 9,
{
    if i < v.len() {
        assert(digit_value(v@[i as int]) is Some);
        (v[i] as u32 - 48) as u64
    } else {
        0
    }
}

/// A numeral of digits alone denotes a number that fits or does not, as `parsed_u64` says.
proof fn lemma_parsed_digits(s: Seq<char>)
    requires
        is_digits(s),
        s.len() > 0,
    ensures
        parsed_u64(s) is Some <==> numeral_value(s) <= u64::MAX,
        parsed_u64(s) is Some ==> parsed_u64(s).unwrap() == numeral_value(s),
{
}

/// Reads a decimal numeral with up to three decimals as thousandths.
pub fn parse_fixed3(v: &Vec<char>) -> (n: Option<u64>)
    ensures
        n == fits_u64(fixed3(v@)),
{
    let mut point: Vec<char> = Vec::new();
    point.push('.');
    assert(point@ =~= seq!['.']);
    match find(v, &point) {
        None => {
            if v.len() == 0 || !all_digits(v) {
                return None;
            }
            proof {
                lemma_parsed_digits(v@);
            }
            match parse_digits(v) {
                Some(whole) => whole.checked_mul(1000),
                None => {
                    assert(numeral_value(v@) * 1000 > u64::MAX) by (nonlinear_arith)
                        requires
                            numeral_value(v@) > u64::MAX,
                    ;
                    None
                },
            }
        },
        Some(p) => {
            let whole = slice_of(v, 0, p);
            let fraction = slice_of(v, p + 1, v.len());
            proof {
                assert(whole@ =~= v@.take(p as int));
                assert(fraction@ =~= v@.skip(p + 1));
            }
            if (whole.len() == 0 && fraction.len() == 0) || !all_digits(&whole) || !all_digits(
                &fraction,
            ) {
                return None;
            }
            let small: u64 = digit_at(&fraction, 0) * 100 + digit_at(&fraction, 1) * 10 + digit_at(
                &fraction,
                2,
            );
            let big: u64 = if whole.len() == 0 {
                0
            } else {
                proof {
                    lemma_parsed_digits(whole@);
                }
                match parse_digits(&whole) {
                    Some(w) => w,
                    None => {
                        assert(numeral_value(whole@) * 1000 + thousandths(fraction@) > u64::MAX)
                            by (nonlinear_arith)
                            requires
                                numeral_value(whole@) > u64::MAX,
                        ;
                        return None;
                    },
                }
            };
            match big.checked_mul(1000) {
                Some(scaled) => scaled.checked_add(small),
                None => None,
            }
        },
    }
}

/// Splits a text at a separator that must occur exactly `count` times.
pub fn split_exactly(v: &Vec<char>, separator: &Vec<char>, count: usize) -> (parts: Option<
    Vec<Vec<char>>,
>)
    ensures
        match parts {
            Some(p) => split_at_each(v@, separator@, count as nat) == Some(views(p@)) && p@.len()
                == count + 1,
            None => split_at_each(v@, separator@, count as nat) is None,
        },
    decreases count,
{
    if count == 0 {
        if contains(v, separator) {
            return None;
        }
        let mut parts: Vec<Vec<char>> = Vec::new();
        parts.push(slice_of(v, 0, v.len()));
        proof {
            assert(v@.subrange(0, v@.len() as int) =~= v@);
            assert(views(parts@) =~= seq![v@]);
        }
        return Some(parts);
    }
    let at = match find(v, separator) {
        Some(at) => at,
        None => {
            return None;
        },
    };
    let n = v.len();
    assert(at + separator@.len() <= n);
    let head = slice_of(v, 0, at);
    let tail = slice_of(v, at + separator.len(), n);
    proof {
        assert(head@ =~= v@.take(at as int));
        assert(tail@ =~= v@.skip(at + separator@.len()));
    }
    match split_exactly(&tail, separator, count - 1) {
        None => None,
        Some(mut rest) => {
            let ghost rest_view = views(rest@);
            rest.insert(0, head);
            proof {
                assert(views(rest@) =~= seq![v@.take(at as int)] + rest_view);
            }
            Some(rest)
        },
    }
}

fn times_plus(a: Option<u64>, factor: u64, b: Option<u64>) -> (total: Option<u64>)
    ensures
        total == match (a, b) {
            (Some(x), Some(y)) => fits_u64(Some((x * factor + y) as nat)),
            _ => None,
        },
{
    match (a, b) {
        (Some(x), Some(y)) => match x.checked_mul(factor) {
            Some(scaled) => scaled.checked_add(y),
            None => None,
        },
        _ => None,
    }
}

fn read_srt_time(v: &Vec<char>) -> (ms: Option<u64>)
    ensures
        ms == srt_time_ms(v@),
{
    let mut marked: Vec<char> = Vec::new();
    let mut i: usize = 0;
    while i < v.len()
        invariant
            i <= v.len(),
            marked@ == pointed(v@).take(i as int),
        decreases v.len() - i,
    {
        let c: char = if v[i] == ',' {
            '.'
        } else {
            v[i]
        };
        marked.push(c);
        proof {
            assert(marked@ =~= pointed(v@).take(i as int + 1));
        }
        i += 1;
    }
    proof {
        assert(pointed(v@).take(v@.len() as int) =~= pointed(v@));
    }
    let mut colon: Vec<char> = Vec::new();
    colon.push(':');
    assert(colon@ =~= seq![':']);
    let parts = match split_exactly(&marked, &colon, 2) {
        Some(p) => p,
        None => {
            return None;
        },
    };
    let hours = parse_fixed3(&parts[0]);
    let minutes = parse_fixed3(&parts[1]);
    let seconds = parse_fixed3(&parts[2]);
    proof {
        let p = views(parts@);
        assert(p[0] == parts@[0]@ && p[1] == parts@[1]@ && p[2] == parts@[2]@);
    }
    let minutes_and_seconds = times_plus(minutes, 60, seconds);
    match (hours, minutes, seconds) {
        (Some(h), Some(m), Some(sec)) => {
            match minutes_and_seconds {
                Some(rest) => {
                    let total = times_plus(Some(h), 3600, Some(rest));
                    proof {
                        assert(h * 3600 + rest == h * 3600 + m * 60 + sec);
                    }
                    total
                },
                None => {
                    proof {
                        assert(h * 3600 + m * 60 + sec >= m * 60 + sec) by (nonlinear_arith)
                            requires
                                h >= 0,
                        ;
                    }
                    None
                },
            }
        },
        _ => None,
    }
}

/// Reads a subtitle time `HH:MM:SS,mmm` as milliseconds.
pub fn parse_srt_time(s: &str) -> (ms: Option<u64>)
    ensures
        ms == srt_time_ms(s@),
{
    read_srt_time(&chars_of(s))
}

fn read_mm_ss(v: &Vec<char>) -> (ms: Option<u64>)
    ensures
        ms == mm_ss_ms(v@),
{
    let mut colon: Vec<char> = Vec::new();
    colon.push(':');
    assert(colon@ =~= seq![':']);
    let parts = match split_exactly(v, &colon, 1) {
        Some(p) => p,
        None => {
            return None;
        },
    };
    proof {
        let p = views(parts@);
        assert(p[0] == parts@[0]@ && p[1] == parts@[1]@);
    }
    times_plus(parse_fixed3(&parts[0]), 60, parse_fixed3(&parts[1]))
}

/// Reads a transcript time `M:SS` as milliseconds.
pub fn parse_mm_ss(s: &str) -> (ms: Option<u64>)
    ensures
        ms == mm_ss_ms(s@),
{
    read_mm_ss(&chars_of(s))
}

fn read_timestamp_line(v: &Vec<char>) -> (times: Option<(u64, u64)>)
    ensures
        times == timestamp_line_ms(v@),
{
    let arrow = chars_of("-->");
    let parts = match split_exactly(v, &arrow, 1) {
        Some(p) => p,
        None => {
            return None;
        },
    };
    proof {
        let p = views(parts@);
        assert(p[0] == parts@[0]@ && p[1] == parts@[1]@);
    }
    let start = read_srt_time(&trim_chars(&parts[0]));
    let end = read_srt_time(&trim_chars(&parts[1]));
    match (start, end) {
        (Some(s), Some(e)) => Some((s, e)),
        _ => None,
    }
}

/// Reads the time line of a subtitle: the start and the end in milliseconds.
pub fn parse_timestamp_line(line: &str) -> (times: Option<(u64, u64)>)
    ensures
        times == timestamp_line_ms(line@),
{
    read_timestamp_line(&chars_of(line))
}

fn read_index(v: &Vec<char>) -> (index: Option<usize>)
    ensures
        index == index_of_line(v@),
{
    let parsed = if v.len() > 0 && v[0] == '+' {
        let digits = slice_of(v, 1, v.len());
        proof {
            assert(digits@ =~= v@.skip(1));
        }
        parse_digits(&digits)
    } else {
        parse_digits(v)
    };
    match parsed {
        Some(n) => if n <= usize::MAX as u64 {
            Some(n as usize)
        } else {
            None
        },
        None => None,
    }
}

/// Joins lines by single spaces.
fn join_parts(parts: &Vec<Vec<char>>) -> (text: Vec<char>)
    ensures
        text@ == joined(views(parts@)),
{
    let ghost all = views(parts@);
    let mut text: Vec<char> = Vec::new();
    let mut i: usize = 0;
    while i < parts.len()
        invariant
            i <= parts.len(),
            all == views(parts@),
            text@ == joined(all.take(i as int)),
        decreases parts.len() - i,
    {
        proof {
            assert(all.take(i as int + 1).drop_last() =~= all.take(i as int));
            assert(all.take(i as int + 1).last() == parts@[i as int]@);
            if i == 0 {
                assert(all.take(1)[0] == parts@[0]@);
                assert(all.take(0) =~= Seq::<Seq<char>>::empty());
            }
        }
        let ghost before = text@;
        if i > 0 {
            text.push(' ');
        }
        let part = &parts[i];
        let mut k: usize = 0;
        let ghost base = text@;
        while k < part.len()
            invariant
                k <= part.len(),
                text@ == base + part@.take(k as int),
            decreases part.len() - k,
        {
            text.push(part[k]);
            proof {
                assert(base + part@.take(k as int + 1) =~= (base + part@.take(k as int)).push(
                    part@[k as int],
                ));
            }
            k += 1;
        }
        proof {
            assert(part@.take(part@.len() as int) =~= part@);
            if i > 0 {
                assert(text@ =~= before + seq![' '] + part@);
            } else {
                assert(text@ =~= part@);
            }
        }
        i += 1;
    }
    proof {
        assert(all.take(all.len() as int) =~= all);
    }
    text
}

fn split_speaker(raw: &Vec<char>) -> (split: (Option<String>, String))
    ensures
        opt_text(split.0) == speaker_split(raw@).0,
        split.1@ == speaker_split(raw@).1,
{
    let mark = chars_of(": ");
    proof {
        reveal_strlit(": ");
    }
    let n = raw.len();
    match find(raw, &mark) {
        None => (None, string_of(raw)),
        Some(p) => {
            assert(p + 2 <= n);
            let candidate = slice_of(raw, 0, p);
            proof {
                assert(candidate@ =~= raw@.take(p as int));
            }
            let name = string_of(&candidate);
            if name.as_str().as_bytes().len() < SPEAKER_NAME_LIMIT && !contains(
                &candidate,
                &chars_of("  "),
            ) {
                let rest = slice_of(raw, p + 2, n);
                proof {
                    assert(rest@ =~= raw@.skip(p + 2));
                }
                (Some(name), string_of(&rest))
            } else {
                (None, string_of(raw))
            }
        },
    }
}

/// Whether two texts are the same.
fn same_string(a: &String, b: &String) -> (eq: bool)
    ensures
        eq == (a@ == b@),
{
    *a == *b
}

/// Parses the text of a subtitle file: the entries without repetitions,
/// in the order of their starts, numbered from one.
pub fn parse_srt(content: &str) -> (entries: Vec<SrtEntry>)
    ensures
        views(entries@) == srt_entries(content@),
{
    let lines = read_lines(content);
    let ghost all = views(lines@);
    let mut found: Vec<SrtEntry> = Vec::new();
    let mut expect = Expect::Head;
    let mut index: usize = 0;
    let mut start_ms: u64 = 0;
    let mut end_ms: u64 = 0;
    let mut parts: Vec<Vec<char>> = Vec::new();
    let mut i: usize = 0;
    proof {
        assert(views(found@) =~= Seq::<SrtView>::empty());
        assert(views(parts@) =~= Seq::<Seq<char>>::empty());
        assert(all.take(0) =~= Seq::<Seq<char>>::empty());
    }
    while i < lines.len()
        invariant
            i <= lines.len(),
            all == views(lines@),
            views(found@) == srt_scan(all.take(i as int)).0,
            srt_scan(all.take(i as int)).1 == (BlockState {
                expect,
                index,
                speaker: Seq::empty(),
                start_ms,
                end_ms,
                parts: views(parts@),
            }),
        decreases lines.len() - i,
    {
        let line = &lines[i];
        let ghost before = views(found@);
        let ghost old_parts = views(parts@);
        proof {
            assert(all.take(i as int + 1).drop_last() =~= all.take(i as int));
            assert(all.take(i as int + 1).last() == line@);
        }
        match expect {
            Expect::Head => {
                match read_index(line) {
                    Some(n) => {
                        index = n;
                        expect = Expect::Time;
                    },
                    None => {},
                }
            },
            Expect::Time => {
                match read_timestamp_line(line) {
                    Some((s, e)) => {
                        start_ms = s;
                        end_ms = e;
                        parts = Vec::new();
                        expect = Expect::Text;
                        proof {
                            assert(views(parts@) =~= Seq::<Seq<char>>::empty());
                        }
                    },
                    None => {
                        expect = Expect::Head;
                    },
                }
            },
            Expect::Text => {
                if line.len() == 0 {
                    let raw = join_parts(&parts);
                    let (speaker, text) = split_speaker(&raw);
                    let entry = SrtEntry { index, start_ms, end_ms, speaker, text };
                    let ghost view = entry@;
                    found.push(entry);
                    expect = Expect::Head;
                    proof {
                        assert(views(found@) =~= before.push(view));
                    }
                } else {
                    let ghost view = line@;
                    parts.push(slice_of(line, 0, line.len()));
                    proof {
                        assert(line@.subrange(0, line@.len() as int) =~= line@);
                        assert(views(parts@) =~= old_parts.push(view));
                    }
                }
            },
        }
        i += 1;
    }
    proof {
        assert(all.take(all.len() as int) =~= all);
    }
    match expect {
        Expect::Text => {
            let ghost before = views(found@);
            let raw = join_parts(&parts);
            let (speaker, text) = split_speaker(&raw);
            let entry = SrtEntry { index, start_ms, end_ms, speaker, text };
            let ghost view = entry@;
            found.push(entry);
            proof {
                assert(views(found@) =~= before.push(view));
            }
        },
        _ => {},
    }
    let unique = dedup_entries(found);
    let mut sorted = sort_entries(unique);
    let ghost ordered = views(sorted@);
    let n = sorted.len();
    let mut k: usize = 0;
    while k < n
        invariant
            k <= n,
            n == sorted.len(),
            n == ordered.len(),
            forall|j: int|
                0 <= j < k ==> (#[trigger] views(sorted@)[j]) == (SrtView {
                    index: (j + 1) as usize,
                    ..ordered[j]
                }),
            forall|j: int| k <= j < n ==> (#[trigger] views(sorted@)[j]) == ordered[j],
        decreases n - k,
    {
        let ghost before = views(sorted@);
        let ghost rows = sorted@;
        sorted[k].index = k + 1;
        proof {
            assert(before[k as int] == rows[k as int]@);
            assert(views(sorted@)[k as int] == sorted@[k as int]@);
            assert forall|j: int| 0 <= j < n && j != k implies (#[trigger] views(sorted@)[j])
                == before[j] by {
                assert(sorted@[j] == rows[j]);
                assert(before[j] == rows[j]@);
            }
        }
        k += 1;
    }
    proof {
        assert(views(sorted@) =~= renumbered(ordered));
    }
    sorted
}

/// Removes the entries that repeat the start and the text of an earlier one.
fn dedup_entries(entries: Vec<SrtEntry>) -> (kept: Vec<SrtEntry>)
    ensures
        views(kept@) == deduped(views(entries@)),
{
    let ghost all = views(entries@);
    let mut kept: Vec<SrtEntry> = Vec::new();
    let mut rest = entries;
    let mut i: usize = 0;
    let n = rest.len();
    proof {
        assert(views(kept@) =~= deduped(all.take(0)));
        assert(views(rest@) =~= all.skip(0));
    }
    while i < n
        invariant
            i <= n,
            n == all.len(),
            views(rest@) == all.skip(i as int),
            views(kept@) == deduped(all.take(i as int)),
        decreases n - i,
    {
        let ghost waiting = views(rest@);
        let ghost queue = rest@;
        assert(waiting.len() == n - i);
        let entry = rest.remove(0);
        let ghost before = views(kept@);
        proof {
            assert(entry@ == waiting[0]);
            assert(rest@ =~= queue.remove(0));
            assert forall|j: int| 0 <= j < rest@.len() implies (#[trigger] views(rest@)[j])
                == all.skip(i as int + 1)[j] by {
                assert(rest@[j] == queue[j + 1]);
                assert(waiting[j + 1] == queue[j + 1]@);
            }
            assert(views(rest@) =~= all.skip(i as int + 1));
            assert(entry@ == all[i as int]);
            assert(all.take(i as int + 1).drop_last() =~= all.take(i as int));
            assert(all.take(i as int + 1).last() == all[i as int]);
        }
        let mut twin = false;
        let mut k: usize = 0;
        while k < kept.len()
            invariant
                k <= kept.len(),
                before == views(kept@),
                twin == exists|j: int|
                    0 <= j < k && (#[trigger] before[j]).start_ms == entry@.start_ms
                        && before[j].text == entry@.text,
            decreases kept.len() - k,
        {
            proof {
                assert(before[k as int] == kept@[k as int]@);
            }
            if kept[k].start_ms == entry.start_ms && same_string(&kept[k].text, &entry.text) {
                twin = true;
            }
            k += 1;
        }
        if !twin {
            let ghost view = entry@;
            kept.push(entry);
            proof {
                assert(views(kept@) =~= before.push(view));
            }
        }
        i += 1;
    }
    proof {
        assert(all.take(all.len() as int) =~= all);
    }
    kept
}

/// Puts the entries in the order of their starts, keeping the order of
/// entries with the same start.
fn sort_entries(entries: Vec<SrtEntry>) -> (sorted: Vec<SrtEntry>)
    ensures
        views(sorted@) == sorted_by_start(views(entries@)),
{
    let ghost all = views(entries@);
    let mut sorted: Vec<SrtEntry> = Vec::new();
    let mut rest = entries;
    let n = rest.len();
    let mut i: usize = 0;
    proof {
        assert(views(sorted@) =~= sorted_by_start(all.take(0)));
        assert(views(rest@) =~= all.skip(0));
    }
    while i < n
        invariant
            i <= n,
            n == all.len(),
            views(rest@) == all.skip(i as int),
            views(sorted@) == sorted_by_start(all.take(i as int)),
        decreases n - i,
    {
        let ghost waiting = views(rest@);
        let ghost queue = rest@;
        assert(waiting.len() == n - i);
        let entry = rest.remove(0);
        let ghost before = views(sorted@);
        proof {
            assert(entry@ == waiting[0]);
            assert(rest@ =~= queue.remove(0));
            assert forall|j: int| 0 <= j < rest@.len() implies (#[trigger] views(rest@)[j])
                == all.skip(i as int + 1)[j] by {
                assert(rest@[j] == queue[j + 1]);
                assert(waiting[j + 1] == queue[j + 1]@);
            }
            assert(views(rest@) =~= all.skip(i as int + 1));
            assert(entry@ == all[i as int]);
            assert(all.take(i as int + 1).drop_last() =~= all.take(i as int));
            assert(all.take(i as int + 1).last() == all[i as int]);
        }
        let mut at: usize = sorted.len();
        proof {
            assert(before.take(at as int) =~= before);
        }
        while at > 0 && sorted[at - 1].start_ms > entry.start_ms
            invariant
                at <= sorted.len(),
                before == views(sorted@),
                place_for(before, entry@.start_ms) == place_for(
                    before.take(at as int),
                    entry@.start_ms,
                ),
            decreases at,
        {
            proof {
                assert(before.take(at as int).last() == sorted@[at - 1]@);
                assert(before.take(at as int).drop_last() =~= before.take(at - 1));
            }
            at -= 1;
        }
        proof {
            if at > 0 {
                assert(before.take(at as int).last() == sorted@[at - 1]@);
            }
            assert(place_for(before.take(at as int), entry@.start_ms) == at);
        }
        let ghost view = entry@;
        sorted.insert(at, entry);
        proof {
            assert(views(sorted@) =~= before.insert(at as int, view));
        }
        i += 1;
    }
    proof {
        assert(all.take(all.len() as int) =~= all);
    }
    sorted
}

/// Parses the text of a reference transcript: blocks of a speaker line, a
/// time line `M:SS` and text, separated by blank lines.
pub fn parse_txt(content: &str) -> (entries: Vec<TxtEntry>)
    ensures
        views(entries@) == txt_entries(content@),
{
    let lines = read_lines(content);
    let ghost all = views(lines@);
    let marker = chars_of("SPK_");
    let mut found: Vec<TxtEntry> = Vec::new();
    let mut expect = Expect::Head;
    let mut speaker: Vec<char> = Vec::new();
    let mut start_ms: u64 = 0;
    let mut parts: Vec<Vec<char>> = Vec::new();
    let mut i: usize = 0;
    proof {
        assert(views(found@) =~= Seq::<TxtView>::empty());
        assert(views(parts@) =~= Seq::<Seq<char>>::empty());
        assert(all.take(0) =~= Seq::<Seq<char>>::empty());
    }
    while i < lines.len()
        invariant
            i <= lines.len(),
            all == views(lines@),
            marker@ == "SPK_"@,
            views(found@) == txt_scan(all.take(i as int)).0,
            txt_scan(all.take(i as int)).1 == (BlockState {
                expect,
                index: 0,
                speaker: speaker@,
                start_ms,
                end_ms: 0,
                parts: views(parts@),
            }),
        decreases lines.len() - i,
    {
        let line = &lines[i];
        let ghost old_parts = views(parts@);
        proof {
            assert(all.take(i as int + 1).drop_last() =~= all.take(i as int));
            assert(all.take(i as int + 1).last() == line@);
            assert(line@.subrange(0, line@.len() as int) =~= line@);
        }
        let speaks = starts_with(line, &marker);
        match expect {
            Expect::Head => {
                if speaks {
                    speaker = slice_of(line, 0, line.len());
                    expect = Expect::Time;
                }
            },
            Expect::Time => {
                match read_mm_ss(line) {
                    Some(s) => {
                        start_ms = s;
                        parts = Vec::new();
                        expect = Expect::Text;
                        proof {
                            assert(views(parts@) =~= Seq::<Seq<char>>::empty());
                        }
                    },
                    None => {
                        expect = Expect::Head;
                    },
                }
            },
            Expect::Text => {
                if line.len() == 0 || speaks {
                    flush_txt(&mut found, &speaker, start_ms, &parts);
                    if line.len() == 0 {
                        expect = Expect::Head;
                    } else {
                        speaker = slice_of(line, 0, line.len());
                        expect = Expect::Time;
                    }
                } else {
                    let ghost view = line@;
                    parts.push(slice_of(line, 0, line.len()));
                    proof {
                        assert(views(parts@) =~= old_parts.push(view));
                    }
                }
            },
        }
        i += 1;
    }
    proof {
        assert(all.take(all.len() as int) =~= all);
    }
    match expect {
        Expect::Text => {
            flush_txt(&mut found, &speaker, start_ms, &parts);
        },
        _ => {},
    }
    let ghost blocks = views(found@);
    let n = found.len();
    let mut k: usize = 0;
    while k < n
        invariant
            k <= n,
            n == found.len(),
            n == blocks.len(),
            forall|j: int| 0 <= j < k ==> (#[trigger] views(found@)[j]) == with_ends(blocks)[j],
            forall|j: int| k <= j < n ==> (#[trigger] views(found@)[j]) == blocks[j],
        decreases n - k,
    {
        let ghost before = views(found@);
        let end: u64 = if k + 1 < n {
            proof {
                assert(before[k + 1] == blocks[k + 1]);
                assert(before[k + 1] == found@[k + 1]@);
            }
            found[k + 1].start_ms
        } else if found[k].start_ms <= u64::MAX - LAST_ENTRY_MS {
            found[k].start_ms + LAST_ENTRY_MS
        } else {
            u64::MAX
        };
        proof {
            assert(before[k as int] == blocks[k as int]);
            assert(before[k as int] == found@[k as int]@);
        }
        let ghost rows = found@;
        found[k].end_ms = end;
        proof {
            assert(views(found@)[k as int] == found@[k as int]@);
            assert forall|j: int| 0 <= j < n && j != k implies (#[trigger] views(found@)[j])
                == before[j] by {
                assert(found@[j] == rows[j]);
                assert(before[j] == rows[j]@);
            }
        }
        k += 1;
    }
    proof {
        assert(views(found@) =~= with_ends(blocks));
    }
    found
}

/// Adds the block in progress to the entries, where it holds text.
fn flush_txt(found: &mut Vec<TxtEntry>, speaker: &Vec<char>, start_ms: u64, parts: &Vec<Vec<char>>)
    ensures
        views(final(found)@) == with_txt_block(
            views(old(found)@),
            BlockState {
                expect: Expect::Text,
                index: 0,
                speaker: speaker@,
                start_ms,
                end_ms: 0,
                parts: views(parts@),
            },
        ),
{
    if parts.len() > 0 {
        let ghost before = views(found@);
        let text = join_parts(parts);
        let entry = TxtEntry {
            speaker: string_of(speaker),
            start_ms,
            end_ms: 0,
            text: string_of(&text),
        };
        let ghost view = entry@;
        found.push(entry);
        proof {
            assert(views(found@) =~= before.push(view));
        }
    }
}

/// Where an entry goes is a place in the list: every entry before it
/// starts no later, every entry from it on starts later.
proof fn lemma_place_for(sorted: Seq<SrtView>, start_ms: u64)
    requires
        forall|a: int, b: int|
            0 <= a <= b < sorted.len() ==> sorted[a].start_ms <= sorted[b].start_ms,
    ensures
        0 <= place_for(sorted, start_ms) <= sorted.len(),
        forall|a: int| 0 <= a < place_for(sorted, start_ms) ==> sorted[a].start_ms <= start_ms,
        forall|a: int|
            place_for(sorted, start_ms) <= a < sorted.len() ==> sorted[a].start_ms > start_ms,
    decreases sorted.len(),
{
    if sorted.len() > 0 {
        if sorted.last().start_ms <= start_ms {
            assert forall|a: int| 0 <= a < sorted.len() implies sorted[a].start_ms
                <= start_ms by {
                assert(sorted[a].start_ms <= sorted[sorted.len() - 1].start_ms);
            }
        } else {
            let rest = sorted.drop_last();
            assert forall|a: int, b: int| 0 <= a <= b < rest.len() implies rest[a].start_ms
                <= rest[b].start_ms by {
                assert(sorted[a].start_ms <= sorted[b].start_ms);
            }
            lemma_place_for(rest, start_ms);
            assert forall|a: int| 0 <= a < place_for(sorted, start_ms) implies sorted[a].start_ms
                <= start_ms by {
                assert(rest[a] == sorted[a]);
            }
            assert forall|a: int|
                place_for(sorted, start_ms) <= a < sorted.len() implies sorted[a].start_ms
                > start_ms by {
                if a < rest.len() {
                    assert(rest[a] == sorted[a]);
                }
            }
        }
    }
}

/// The entries of a subtitle file come out in the order of their starts:
/// no entry starts before the one before it.
pub proof fn lemma_sorted_by_start(entries: Seq<SrtView>)
    ensures
        sorted_by_start(entries).len() == entries.len(),
        forall|a: int, b: int|
            0 <= a <= b < sorted_by_start(entries).len() ==> sorted_by_start(
                entries,
            )[a].start_ms <= sorted_by_start(entries)[b].start_ms,
    decreases entries.len(),
{
    if entries.len() > 0 {
        let rest = sorted_by_start(entries.drop_last());
        let e = entries.last();
        lemma_sorted_by_start(entries.drop_last());
        lemma_place_for(rest, e.start_ms);
        let at = place_for(rest, e.start_ms);
        let all = rest.insert(at, e);
        assert forall|a: int, b: int| 0 <= a <= b < all.len() implies all[a].start_ms
            <= all[b].start_ms by {
            let a0 = if a < at {
                a
            } else {
                a - 1
            };
            let b0 = if b < at {
                b
            } else {
                b - 1
            };
            if a != at && b != at {
                assert(all[a] == rest[a0]);
                assert(all[b] == rest[b0]);
                assert(rest[a0].start_ms <= rest[b0].start_ms);
            } else if a == at && b != at {
                assert(all[b] == rest[b0]);
            } else if b == at && a != at {
                assert(all[a] == rest[a0]);
            }
        }
    }
}

} // verus!
