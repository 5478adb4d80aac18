use ffmfrog::ass::{annotate, push_furi_line, push_revealed};
use ffmfrog::document::{Line, TimedSegOrFill, Track, TrackData};
use ffmfrog::furigana::FuriMap;
use ffmfrog::subs::SubsState;
use ffmfrog::tracking::{advance, TrackingState};

const WIDE: char = '\u{3000}';

fn seg(text: &str, furigana: &[&str]) -> TimedSegOrFill {
    TimedSegOrFill::Seg {
        text: text.to_string(),
        furigana: furigana.iter().map(|f| f.to_string()).collect(),
    }
}

fn timing(id: u8, segments: Vec<TimedSegOrFill>) -> Track {
    Track { id, data: TrackData::Timing { segments } }
}

fn raw(id: u8, text: &str) -> Track {
    Track { id, data: TrackData::Raw(text.to_string()) }
}

fn two_lines() -> Vec<Line> {
    vec![
        Line { tracks: vec![timing(1, vec![seg("A", &[]), seg("B", &[])])], segment_count: 2 },
        Line { tracks: vec![raw(2, "C")], segment_count: 1 },
    ]
}

fn buffers(v: &[(u8, &str)]) -> Vec<(u8, String)> {
    v.iter().map(|(id, s)| (*id, s.to_string())).collect()
}

fn preamble(w: &str, h: &str, ids: &[u8]) -> String {
    let mut s = format!(
        "[Script Info]\nScriptType: v4.00+\nScaledBorderAndShadow: yes\nYCbCr Matrix: None\nPlayResX: {w}\nPlayResY: {h}\nLayoutResX: {w}\nLayoutResY: {h}\n\n[V4+ Styles]\nFormat: Name, Fontname, Fontsize,PrimaryColour, SecondaryColour, OutlineColour, BackColour,Bold, Italic, Underline, StrikeOut,ScaleX, ScaleY, Spacing, Angle, BorderStyle, Outline, Shadow, Alignment, MarginL, MarginR, MarginV, Encoding\n"
    );
    for id in ids {
        s.push_str(&format!("Style: Static{id},DejaVu Sans,44,&H00AAAAAA,&H00000000,&H00000000,&H00000000,0,0,0,0,100.0,100.0,0.0,0.0,1,1.0,1.0,2,0,0,0,0\n"));
        s.push_str(&format!("Style: Accum{id},DejaVu Sans,44,&H00FFFFFF, &H00000000, &H00000000, &H00000000,0,0,0,0,100.0,100.0,0.0,0.0,1,1.0,1.0,2,0,0,0,1\n"));
    }
    s.push_str("Style: StaticFuri,DejaVu Sans,22.2,&H00AAAAAA, &H00000000, &H00000000, &H00000000,0,0,0,0,100.0,100.0,0.0,0.0,1,1.0,1.0,2,0,0,0,1\n");
    s.push_str("Style: AccumFuri,DejaVu Sans,22.2,&H00FFFFFF, &H00000000, &H00000000, &H00000000,0,0,0,0,100.0,100.0,0.0,0.0,1,1.0,1.0,2,0,0,0,1\n");
    s.push_str("\n[Events]\nFormat: Layer, Start, End, Style, Name, MarginL, MarginR, MarginV, Effect, Text\n");
    s
}

#[test]
fn a_fresh_state_is_at_the_start() {
    let t = TrackingState::default();
    assert_eq!(t.line_idx(), 0);
    assert_eq!(t.seg_idx(), 0);
    assert!(!t.waits_for_next_line());
    assert!(t.accumulators.is_empty());
    assert!(t.static_line_tracks.is_empty());
    assert_eq!(t.static_furigana_indices.len(), 0);
    assert_eq!(t.timed_furigana_indices.len(), 0);
    assert_eq!(t.timestamp_tracker, 0);
}

#[test]
fn steps_reveal_a_line_segment_by_segment() {
    let lines = two_lines();
    let mut t = TrackingState::default();
    advance(&mut t, &lines);
    assert_eq!(t.accumulators, buffers(&[(1, "A")]));
    assert_eq!(t.static_line_tracks, buffers(&[(1, "AB")]));
    assert_eq!((t.line_idx(), t.seg_idx()), (0, 1));
    assert!(!t.waits_for_next_line());
    advance(&mut t, &lines);
    assert_eq!(t.accumulators, buffers(&[(1, "AB")]));
    assert_eq!(t.static_line_tracks, buffers(&[(1, "AB")]));
    assert_eq!((t.line_idx(), t.seg_idx()), (1, 0));
    assert!(t.waits_for_next_line());
}

#[test]
fn one_blank_step_separates_two_lines() {
    let lines = two_lines();
    let mut t = TrackingState::default();
    advance(&mut t, &lines);
    advance(&mut t, &lines);
    advance(&mut t, &lines);
    assert!(t.accumulators.is_empty());
    assert!(t.static_line_tracks.is_empty());
    assert!(!t.waits_for_next_line());
    assert_eq!((t.line_idx(), t.seg_idx()), (1, 0));
    advance(&mut t, &lines);
    assert_eq!(t.accumulators, buffers(&[(2, "C")]));
    assert_eq!(t.static_line_tracks, buffers(&[(2, "")]));
    assert_eq!((t.line_idx(), t.seg_idx()), (2, 0));
    assert!(t.waits_for_next_line());
}

#[test]
fn steps_past_the_last_line_do_nothing_more() {
    let lines = two_lines();
    let mut t = TrackingState::default();
    for _ in 0..4 {
        advance(&mut t, &lines);
    }
    advance(&mut t, &lines);
    assert!(t.accumulators.is_empty());
    assert_eq!((t.line_idx(), t.seg_idx()), (2, 0));
    advance(&mut t, &lines);
    advance(&mut t, &lines);
    assert!(t.accumulators.is_empty());
    assert!(t.static_line_tracks.is_empty());
    assert_eq!((t.line_idx(), t.seg_idx()), (2, 0));
    assert!(!t.waits_for_next_line());
}

#[test]
fn a_track_without_the_segment_stops_the_step() {
    let lines = vec![Line {
        tracks: vec![timing(1, vec![seg("A", &[])]), timing(2, vec![seg("X", &[]), seg("Y", &[])])],
        segment_count: 2,
    }];
    let mut t = TrackingState::default();
    advance(&mut t, &lines);
    assert_eq!(t.accumulators, buffers(&[(1, "A"), (2, "X")]));
    assert_eq!(t.seg_idx(), 1);
    advance(&mut t, &lines);
    assert_eq!(t.accumulators, buffers(&[(1, "A"), (2, "X")]));
    assert_eq!(t.static_line_tracks, buffers(&[(1, "A"), (2, "XY")]));
    assert_eq!((t.line_idx(), t.seg_idx()), (0, 1));
    assert!(!t.waits_for_next_line());
}

#[test]
fn raw_tracks_leave_annotations_and_whole_line_texts_alone() {
    let lines = vec![
        Line { tracks: vec![raw(1, "one"), raw(2, "two")], segment_count: 1 },
        Line { tracks: vec![raw(1, "three")], segment_count: 2 },
    ];
    let mut t = TrackingState::default();
    for step in 0..8 {
        advance(&mut t, &lines);
        assert_eq!(t.static_furigana_indices.len(), 0, "step {step}");
        assert_eq!(t.timed_furigana_indices.len(), 0, "step {step}");
        assert!(t.static_line_tracks.iter().all(|(_, s)| s.is_empty()), "step {step}");
    }
}

#[test]
fn annotations_follow_the_revealed_text() {
    let lines = vec![Line {
        tracks: vec![timing(5, vec![seg("漢字", &["かん", "じ"]), TimedSegOrFill::Fill, seg("だ", &[])])],
        segment_count: 3,
    }];
    let mut t = TrackingState::default();
    advance(&mut t, &lines);
    assert_eq!(t.accumulators, buffers(&[(5, "漢字")]));
    assert_eq!(t.static_line_tracks, buffers(&[(5, "漢字だ")]));
    assert_eq!(t.timed_furigana_indices.get(5, 1), Some(&vec!["かん".to_string()]));
    assert_eq!(
        t.static_furigana_indices.get(5, 1),
        Some(&vec!["かん".to_string(), "じ".to_string()])
    );
    advance(&mut t, &lines);
    assert_eq!(t.accumulators, buffers(&[(5, "漢字")]));
    assert_eq!(
        t.timed_furigana_indices.get(5, 1),
        Some(&vec!["かん".to_string(), "じ".to_string()])
    );
    assert_eq!(t.timed_furigana_indices.len(), 1);
    assert_eq!(t.static_furigana_indices.len(), 1);
    advance(&mut t, &lines);
    assert_eq!(t.accumulators, buffers(&[(5, "漢字だ")]));
    assert!(t.waits_for_next_line());
}

#[test]
fn checkpoint_and_return() {
    let mut subs = SubsState::new(two_lines(), "song.kashimark".to_string());
    subs.time_stamps = vec![1, 2, 3];
    subs.advance();
    subs.save_state(42);
    assert_eq!(subs.saved.mpv_position, 42);
    subs.advance();
    subs.time_stamps.push(4);
    subs.reload_state();
    assert_eq!(subs.tracking.accumulators, buffers(&[(1, "A")]));
    assert_eq!(subs.tracking.seg_idx(), 1);
    assert_eq!(subs.time_stamps, vec![1, 2, 3]);
    subs.reload_state();
    assert_eq!(subs.tracking.accumulators, buffers(&[(1, "A")]));
    assert_eq!(subs.tracking.seg_idx(), 1);
    assert_eq!(subs.time_stamps, vec![1, 2, 3]);
}

#[test]
fn a_checkpoint_restores_annotations() {
    let lines = vec![Line {
        tracks: vec![timing(5, vec![seg("漢字", &["かん", "じ"]), TimedSegOrFill::Fill])],
        segment_count: 2,
    }];
    let mut subs = SubsState::new(lines, String::new());
    subs.advance();
    subs.save_state(0);
    subs.advance();
    subs.advance();
    assert_eq!(subs.tracking.timed_furigana_indices.len(), 0);
    subs.reload_state();
    assert_eq!(subs.tracking.timed_furigana_indices.get(5, 1), Some(&vec!["かん".to_string()]));
    subs.advance();
    assert_eq!(
        subs.tracking.timed_furigana_indices.get(5, 1),
        Some(&vec!["かん".to_string(), "じ".to_string()])
    );
}

#[test]
fn a_checkpoint_outlives_cleared_timestamps() {
    let mut subs = SubsState::new(two_lines(), String::new());
    subs.time_stamps = vec![10, 20];
    subs.save_state(0);
    subs.clear();
    assert!(subs.time_stamps.is_empty());
    subs.reload_state();
    assert_eq!(subs.time_stamps, vec![10, 20]);
}

#[test]
fn an_empty_checkpoint_keeps_the_timestamps() {
    let mut subs = SubsState::new(two_lines(), String::new());
    subs.time_stamps = vec![10, 20, 30];
    subs.advance();
    subs.reload_state();
    assert_eq!(subs.time_stamps, vec![10, 20, 30]);
    assert_eq!(subs.tracking.seg_idx(), 0);
    assert!(subs.tracking.accumulators.is_empty());
}

#[test]
fn rewind_keeps_timestamps_and_clear_drops_them() {
    let mut subs = SubsState::new(two_lines(), String::new());
    subs.time_stamps = vec![1, 2];
    subs.advance();
    subs.rewind();
    assert_eq!(subs.tracking.seg_idx(), 0);
    assert!(subs.tracking.accumulators.is_empty());
    assert_eq!(subs.time_stamps, vec![1, 2]);
    subs.advance();
    subs.clear();
    assert!(subs.time_stamps.is_empty());
    assert_eq!(subs.tracking.seg_idx(), 0);
}

#[test]
fn timings_are_loaded_and_the_file_is_remembered() {
    let mut subs = SubsState::new(two_lines(), String::new());
    let file = subs.save_timings();
    assert_eq!(file.path, "sub-timing.txt");
    assert_eq!(file.contents, "");
    assert!(subs.timings_reload_sentry().is_none());
    assert!(subs.load_timings("0 1.5 3 ", "my-timing.txt".to_string()).is_ok());
    assert_eq!(subs.time_stamps, vec![0, 1_500_000, 3_000_000]);
    let file = subs.save_timings();
    assert_eq!(file.path, "my-timing.txt");
    assert_eq!(file.contents, "0 1.5 3 ");
}

#[test]
fn a_bad_token_fails_the_load_and_keeps_the_old_file() {
    let mut subs = SubsState::new(two_lines(), String::new());
    assert!(subs.load_timings("1 ", "good.txt".to_string()).is_ok());
    let err = subs.load_timings("2 3 oops 5", "bad.txt".to_string());
    assert_eq!(err.err().map(|e| e.token), Some(2));
    assert_eq!(subs.time_stamps, vec![2_000_000, 3_000_000]);
    assert_eq!(subs.save_timings().path, "good.txt");
}

#[test]
fn the_sentry_reloads_the_remembered_file() {
    let mut subs = SubsState::new(two_lines(), String::new());
    assert!(subs.load_timings("1 ", "t.txt".to_string()).is_ok());
    let sentry = subs.timings_reload_sentry().expect("a file is remembered");
    assert_eq!(sentry.path(), "t.txt");
    assert!(sentry.reload("7 8 ").is_ok());
    assert_eq!(subs.time_stamps, vec![7_000_000, 8_000_000]);
    assert_eq!(subs.save_timings().path, "t.txt");
}

#[test]
fn asking_for_a_sentry_changes_nothing() {
    let mut subs = SubsState::new(two_lines(), "a.txt".to_string());
    subs.time_stamps = vec![1, 2];
    subs.advance();
    assert!(subs.timings_reload_sentry().is_none());
    assert_eq!(subs.time_stamps, vec![1, 2]);
    assert_eq!(subs.tracking.accumulators, buffers(&[(1, "A")]));
    assert_eq!(subs.save_timings().path, "sub-timing.txt");
    assert!(subs.load_timings("3 ", "t.txt".to_string()).is_ok());
    subs.advance();
    assert!(subs.timings_reload_sentry().is_some());
    assert_eq!(subs.time_stamps, vec![3_000_000]);
    assert_eq!(subs.tracking.accumulators, buffers(&[(1, "AB")]));
    assert_eq!(subs.save_timings().path, "t.txt");
}

#[test]
fn recorded_timestamps_are_appended() {
    let mut subs = SubsState::new(two_lines(), String::new());
    subs.record(5);
    subs.record(3);
    subs.record(5);
    assert_eq!(subs.time_stamps, vec![5, 3, 5]);
    assert_eq!(subs.time_stamps().len(), 3);
    assert!(subs.tracking.accumulators.is_empty());
    assert_eq!(subs.save_timings().contents, "0.000005 0.000003 0.000005 ");
}

#[test]
fn reload_replaces_the_document_only() {
    let mut subs = SubsState::new(two_lines(), "a.txt".to_string());
    subs.advance();
    subs.reload(vec![Line { tracks: vec![raw(9, "Z")], segment_count: 1 }]);
    assert_eq!(subs.lines().len(), 1);
    assert_eq!(subs.path(), "a.txt");
    assert_eq!(subs.tracking.seg_idx(), 1);
    assert_eq!(subs.tracking.accumulators, buffers(&[(1, "A")]));
}

#[test]
fn export_without_an_interval_has_no_dialogue() {
    for stamps in [vec![], vec![5_000_000]] {
        let mut subs = SubsState::new(two_lines(), String::new());
        subs.time_stamps = stamps;
        let script = subs.gen_ass(1920, 1080);
        assert_eq!(script, preamble("1920", "1080", &[1, 2]));
        assert!(!script.contains("Dialogue:"));
        assert!(script.ends_with("[Events]\nFormat: Layer, Start, End, Style, Name, MarginL, MarginR, MarginV, Effect, Text\n"));
        assert_eq!(subs.tracking.seg_idx(), 0);
        assert!(subs.tracking.accumulators.is_empty());
    }
}

#[test]
fn export_replays_the_steps_over_the_timestamps() {
    let mut subs = SubsState::new(two_lines(), String::new());
    subs.time_stamps = vec![0, 1_000_000, 2_000_000, 3_000_000, 4_000_000];
    let script = subs.gen_ass(640, 480);
    let four = WIDE.to_string().repeat(4);
    let mut expected = preamble("640", "480", &[1, 2]);
    expected.push_str("Dialogue: 0,0:00:00.00,0:00:01.00,Static1,,0,0,0,,AB\n");
    expected.push_str(&format!("Dialogue: 0,0:00:00.00,0:00:01.00,StaticFuri,,0,0,0,,{four}\n"));
    expected.push_str("Dialogue: 1,0:00:00.00,0:00:01.00,Accum1,,0,0,0,,A{\\alpha&HFF&}B\n");
    expected.push_str(&format!("Dialogue: 1,0:00:00.00,0:00:01.00,AccumFuri,,0,0,0,,{four}\n"));
    expected.push_str("Dialogue: 0,0:00:01.00,0:00:02.00,Static1,,0,0,0,,AB\n");
    expected.push_str(&format!("Dialogue: 0,0:00:01.00,0:00:02.00,StaticFuri,,0,0,0,,{four}\n"));
    expected.push_str("Dialogue: 1,0:00:01.00,0:00:02.00,Accum1,,0,0,0,,AB{\\alpha&HFF&}\n");
    expected.push_str(&format!("Dialogue: 1,0:00:01.00,0:00:02.00,AccumFuri,,0,0,0,,{four}\n"));
    expected.push_str("Dialogue: 0,0:00:03.00,0:00:04.00,Static2,,0,0,0,,\n");
    expected.push_str("Dialogue: 0,0:00:03.00,0:00:04.00,StaticFuri,,0,0,0,,\n");
    expected.push_str("Dialogue: 1,0:00:03.00,0:00:04.00,Accum2,,0,0,0,,C\n");
    expected.push_str("Dialogue: 1,0:00:03.00,0:00:04.00,AccumFuri,,0,0,0,,\n");
    assert_eq!(script, expected);
    assert_eq!(subs.tracking.line_idx(), 2);
}

#[test]
fn export_over_four_timestamps_has_three_intervals() {
    let mut subs = SubsState::new(two_lines(), String::new());
    subs.time_stamps = vec![0, 1_000_000, 2_000_000, 3_000_000];
    let script = subs.gen_ass(640, 480);
    let lines: Vec<&str> = script.lines().filter(|l| l.starts_with("Dialogue:")).collect();
    assert_eq!(lines.len(), 8);
    assert!(lines[2].ends_with(",Accum1,,0,0,0,,A{\\alpha&HFF&}B"));
    assert!(lines[6].ends_with(",Accum1,,0,0,0,,AB{\\alpha&HFF&}"));
    assert!(lines.iter().all(|l| !l.contains("0:00:02.00,0:00:03.00")));
    assert!(subs.tracking.accumulators.is_empty());
    assert!(!subs.tracking.waits_for_next_line());
}

#[test]
fn export_writes_annotations_between_wide_spaces() {
    let lines = vec![Line {
        tracks: vec![timing(7, vec![seg("漢字", &["かん", "じ"]), TimedSegOrFill::Fill])],
        segment_count: 2,
    }];
    let mut subs = SubsState::new(lines, String::new());
    subs.time_stamps = vec![0, 500_000];
    let script = subs.gen_ass(-1, 0);
    let mut expected = preamble("-1", "0", &[7]);
    expected.push_str("Dialogue: 0,0:00:00.00,0:00:00.50,Static7,,0,0,0,,漢字\n");
    expected.push_str(&format!("Dialogue: 0,0:00:00.00,0:00:00.50,StaticFuri,,0,0,0,,{WIDE}{WIDE}かんじ\n"));
    expected.push_str("Dialogue: 1,0:00:00.00,0:00:00.50,Accum7,,0,0,0,,漢字{\\alpha&HFF&}\n");
    expected.push_str(&format!("Dialogue: 1,0:00:00.00,0:00:00.50,AccumFuri,,0,0,0,,{WIDE}{WIDE}かん\n"));
    assert_eq!(script, expected);
}

#[test]
fn fragments_overwrite_the_line_from_their_position() {
    let line = "0123456789";
    let parts = |v: &[&str]| v.iter().map(|s| s.to_string()).collect::<Vec<String>>();
    assert_eq!(annotate(line, 1, &parts(&["ab", "c"])), "01abc56789");
    assert_eq!(annotate(line, 4, &parts(&["ab"])), "01234567ab");
    assert_eq!(annotate(line, 4, &parts(&["abc"])), "01234567abc");
    assert_eq!(annotate(line, 5, &parts(&["ab"])), "0123456789ab");
    assert_eq!(annotate(line, 9, &parts(&["ab"])), "0123456789ab");
    assert_eq!(annotate(line, usize::MAX, &parts(&["ab"])), "0123456789ab");
    assert_eq!(annotate(line, 0, &parts(&[])), "0123456789");
    assert_eq!(annotate("", 0, &parts(&["x"])), "x");
}

#[test]
fn the_annotation_line_takes_the_entries_of_its_track_in_order() {
    let mut furi = FuriMap::new();
    furi.place(1, 0, "ab".to_string());
    furi.place(2, 0, "zz".to_string());
    furi.place(1, 1, "c".to_string());
    furi.extend(1, 0, "d".to_string());
    let mut out = "x:".to_string();
    push_furi_line(&mut out, 3, &furi, 1);
    assert_eq!(out, format!("x:abc{WIDE}{WIDE}{WIDE}"));
    let mut out = String::new();
    push_furi_line(&mut out, 1, &furi, 2);
    assert_eq!(out, "zz");
    let mut out = String::new();
    push_furi_line(&mut out, 2, &furi, 3);
    assert_eq!(out, WIDE.to_string().repeat(4));
}

#[test]
fn revealed_text_hides_the_rest_of_the_line() {
    let show = |shown: &str, whole: &str| {
        let mut out = String::new();
        push_revealed(&mut out, shown, whole);
        out
    };
    assert_eq!(show("C", ""), "C");
    assert_eq!(show("", "AB"), "{\\alpha&HFF&}AB");
    assert_eq!(show("漢", "漢字"), "漢{\\alpha&HFF&}字");
    assert_eq!(show("漢字", "漢字"), "漢字{\\alpha&HFF&}");
    assert_eq!(show("longer text", "AB"), "AB{\\alpha&HFF&}");
}
