use roomler_core::subtitles::{
    parse_mm_ss, parse_srt, parse_srt_time, parse_timestamp_line, parse_txt, read_lines,
};

fn secs(ms: u64) -> f64 {
    ms as f64 / 1000.0
}

#[test]
fn test_parse_srt_time() {
    assert!((secs(parse_srt_time("00:00:02,965").unwrap()) - 2.965).abs() < 0.001);
    assert!((secs(parse_srt_time("00:01:30,500").unwrap()) - 90.5).abs() < 0.001);
    assert!((secs(parse_srt_time("01:00:00,000").unwrap()) - 3600.0).abs() < 0.001);
}

#[test]
fn test_parse_timestamp_line() {
    let (s, e) = parse_timestamp_line("00:00:02,965 --> 00:00:04,277").unwrap();
    assert!((secs(s) - 2.965).abs() < 0.001);
    assert!((secs(e) - 4.277).abs() < 0.001);
}

#[test]
fn test_parse_mm_ss() {
    assert!((secs(parse_mm_ss("0:00").unwrap()) - 0.0).abs() < 0.001);
    assert!((secs(parse_mm_ss("0:49").unwrap()) - 49.0).abs() < 0.001);
    assert!((secs(parse_mm_ss("1:06").unwrap()) - 66.0).abs() < 0.001);
    assert!((secs(parse_mm_ss("25:07").unwrap()) - 1507.0).abs() < 0.001);
}

#[test]
fn test_parse_txt_format() {
    let entries = parse_txt("SPK_1\n0:00\nHello world.\n\nSPK_2\n0:05\nGoodbye world.\n");
    assert_eq!(entries.len(), 2);
    assert_eq!(entries[0].speaker, "SPK_1");
    assert!((secs(entries[0].start_ms) - 0.0).abs() < 0.001);
    assert!((secs(entries[0].end_ms) - 5.0).abs() < 0.001);
    assert_eq!(entries[0].text, "Hello world.");
    assert_eq!(entries[1].speaker, "SPK_2");
    assert!((secs(entries[1].start_ms) - 5.0).abs() < 0.001);
    assert_eq!(entries[1].text, "Goodbye world.");
}

#[test]
fn srt_times_are_exact_in_milliseconds() {
    assert_eq!(parse_srt_time("00:00:02,965"), Some(2965));
    assert_eq!(parse_srt_time("00:00:02.965"), Some(2965));
    assert_eq!(parse_srt_time("01:02:03,004"), Some(3_723_004));
    assert_eq!(parse_srt_time("0:0:1"), Some(1000));
    assert_eq!(parse_srt_time("0:0:1,5"), Some(1500));
    assert_eq!(parse_srt_time("0:0:1,23456"), Some(1234));
    assert_eq!(parse_srt_time("0:0:,5"), Some(500));
    assert_eq!(parse_srt_time("0:0:1,"), Some(1000));
    assert_eq!(parse_srt_time("0,5:0:0"), Some(1_800_000));
    for bad in ["", "1:2", "1:2:3:4", "a:b:c", "00:00:-1", "00:00: 1", "0:0:,", "0:0:1,2,3", "99999999999999999999:0:0", "18446744073709551:0:0"] {
        assert_eq!(parse_srt_time(bad), None, "{bad}");
    }
}

#[test]
fn timestamp_lines_need_one_arrow() {
    assert_eq!(parse_timestamp_line("00:00:01,000-->00:00:02,000"), Some((1000, 2000)));
    assert_eq!(parse_timestamp_line("  0:0:1 -->\t0:0:2  "), Some((1000, 2000)));
    for bad in ["", "00:00:01,000", "0:0:1 -> 0:0:2", "0:0:1 --> 0:0:2 --> 0:0:3", "x --> 0:0:2", "0:0:1 --> "] {
        assert_eq!(parse_timestamp_line(bad), None, "{bad}");
    }
}

#[test]
fn mm_ss_needs_one_colon() {
    assert_eq!(parse_mm_ss("1:06"), Some(66_000));
    assert_eq!(parse_mm_ss("0:07.5"), Some(7500));
    for bad in ["", "106", "1:06:00", "m:ss", "1: 06"] {
        assert_eq!(parse_mm_ss(bad), None, "{bad}");
    }
}

#[test]
fn lines_are_split_and_trimmed() {
    let lines: Vec<String> = read_lines(" a \r\n\nb\t\n  \nc").iter().map(|l| l.iter().collect()).collect();
    assert_eq!(lines, vec!["a", "", "b", "", "c"]);
    assert!(read_lines("").is_empty());
    assert_eq!(read_lines("\n").len(), 1);
    assert_eq!(read_lines("x\n").len(), 1);
}

#[test]
fn srt_entries_are_deduplicated_sorted_and_renumbered() {
    let srt = "\
7
00:00:05,000 --> 00:00:06,000
Ada: second line
continues here

not an index
3
00:00:01,000 --> 00:00:02,500
first line

4
bad time line
orphan text

9
00:00:05,000 --> 00:00:07,000
Ada: second line continues here

+12
00:00:01,000 --> 00:00:03,000
also first

13
00:00:09,000 --> 00:00:10,000";
    let entries = parse_srt(srt);
    let shown: Vec<(usize, u64, u64, Option<&str>, &str)> = entries
        .iter()
        .map(|e| (e.index, e.start_ms, e.end_ms, e.speaker.as_deref(), e.text.as_str()))
        .collect();
    assert_eq!(
        shown,
        vec![
            (1, 1000, 2500, None, "first line"),
            (2, 1000, 3000, None, "also first"),
            (3, 5000, 6000, Some("Ada"), "second line continues here"),
            (4, 9000, 10000, None, ""),
        ]
    );
    assert!(parse_srt("").is_empty());
    assert!(parse_srt("1\n").is_empty());
    assert!(parse_srt("\n\n  \n").is_empty());
}

#[test]
fn srt_speakers_are_short_and_without_double_spaces() {
    let block = |text: &str| format!("1\n0:0:1 --> 0:0:2\n{text}\n");
    let one = |text: &str| {
        let mut entries = parse_srt(&block(text));
        assert_eq!(entries.len(), 1);
        let e = entries.remove(0);
        (e.speaker, e.text)
    };
    assert_eq!(one("Bob: hi: there"), (Some("Bob".to_string()), "hi: there".to_string()));
    assert_eq!(one("no speaker here"), (None, "no speaker here".to_string()));
    assert_eq!(one("time:12"), (None, "time:12".to_string()));
    assert_eq!(one("a  b: text"), (None, "a  b: text".to_string()));
    assert_eq!(one(": text"), (Some("".to_string()), "text".to_string()));
    let long = "x".repeat(50);
    assert_eq!(one(&format!("{long}: t")), (None, format!("{long}: t")));
    let fits = "x".repeat(49);
    assert_eq!(one(&format!("{fits}: t")), (Some(fits), "t".to_string()));
    let wide = "é".repeat(25);
    assert_eq!(one(&format!("{wide}: t")), (None, format!("{wide}: t")));
}

#[test]
fn txt_blocks_end_at_blank_lines_and_speaker_lines() {
    let txt = "\
preface
SPK_1
0:49
Hello
world.
SPK_2
1:06
Second.

SPK_3
nonsense
lost line

SPK_4
2:00

SPK_5
25:07
Last.";
    let entries = parse_txt(txt);
    let shown: Vec<(&str, u64, u64, &str)> = entries
        .iter()
        .map(|e| (e.speaker.as_str(), e.start_ms, e.end_ms, e.text.as_str()))
        .collect();
    assert_eq!(
        shown,
        vec![
            ("SPK_1", 49_000, 66_000, "Hello world."),
            ("SPK_2", 66_000, 1_507_000, "Second."),
            ("SPK_5", 1_507_000, 1_512_000, "Last."),
        ]
    );
    assert!(parse_txt("").is_empty());
    assert!(parse_txt("SPK_1\n").is_empty());
    assert!(parse_txt("SPK_1\n0:01\n").is_empty());
}
