use ffmfrog::coords::{Present, Src, VideoDim, VideoPos, VideoRect, VideoVector};
use ffmfrog::document::{Line, TimedSegOrFill, Track, TrackData};
use ffmfrog::keys::{key_action, Key, KeyAction};
use ffmfrog::markers::{drag_extent, panned, release_extent, InteractState, Text, TimeSpan};
use ffmfrog::mpv::property::{bool_of_flag, flag_of};
use ffmfrog::overlay::{contains, timeline_offset, timeline_rect};
use ffmfrog::subs::SubsState;
use ffmfrog::ui::ffmpeg_cli::{recipes, FFMPEG_HELP_TEXT};

fn pos(x: u16, y: u16) -> VideoPos<Src> {
    VideoVector::new(x, y)
}

#[test]
fn playback_is_followed_timestamp_by_timestamp() {
    let lines = vec![Line {
        tracks: vec![Track {
            id: 1,
            data: TrackData::Timing {
                segments: vec![
                    TimedSegOrFill::Seg { text: "A".into(), furigana: Vec::new() },
                    TimedSegOrFill::Seg { text: "B".into(), furigana: Vec::new() },
                ],
            },
        }],
        segment_count: 2,
    }];
    let mut subs = SubsState::new(lines, String::new());
    assert!(!subs.follow(5));
    subs.time_stamps = vec![10, 20];
    assert!(!subs.follow(9));
    assert_eq!(subs.tracking.timestamp_tracker, 0);
    assert!(subs.tracking.accumulators.is_empty());
    assert!(subs.follow(10));
    assert_eq!(subs.tracking.timestamp_tracker, 1);
    assert_eq!(subs.tracking.accumulators, vec![(1, "A".to_string())]);
    assert!(!subs.follow(19));
    assert!(subs.follow(25));
    assert_eq!(subs.tracking.timestamp_tracker, 2);
    assert_eq!(subs.tracking.accumulators, vec![(1, "AB".to_string())]);
    assert!(!subs.follow(1000));
    assert_eq!(subs.tracking.timestamp_tracker, 2);
}

#[test]
fn keys_ask_for_actions() {
    assert_eq!(key_action(Key::Escape, false, false, false), KeyAction::Close);
    assert_eq!(key_action(Key::Tab, false, false, false), KeyAction::ToggleOverlay);
    assert_eq!(key_action(Key::Space, false, false, false), KeyAction::SetPause(true));
    assert_eq!(key_action(Key::Space, false, true, false), KeyAction::SetPause(false));
    assert_eq!(key_action(Key::Period, false, false, false), KeyAction::FrameStep);
    assert_eq!(key_action(Key::Comma, false, false, false), KeyAction::FrameBackStep);
    assert_eq!(key_action(Key::A, false, false, false), KeyAction::RecordTimestamp);
    assert_eq!(key_action(Key::P, false, false, false), KeyAction::PlayCurrent);
    assert_eq!(key_action(Key::S, false, false, false), KeyAction::PlayNothing);
    assert_eq!(key_action(Key::O, true, false, false), KeyAction::PickFile);
    assert_eq!(key_action(Key::O, false, false, false), KeyAction::Ignore);
    assert_eq!(key_action(Key::R, false, false, false), KeyAction::Restart);
    assert_eq!(key_action(Key::Left, false, false, false), KeyAction::Seek(-10));
    assert_eq!(key_action(Key::Right, false, false, false), KeyAction::Seek(10));
    assert_eq!(key_action(Key::Up, false, false, false), KeyAction::Seek(-30));
    assert_eq!(key_action(Key::Down, false, false, false), KeyAction::Seek(30));
    assert_eq!(key_action(Key::F2, false, false, false), KeyAction::SaveState);
    assert_eq!(key_action(Key::F4, false, false, false), KeyAction::ReloadState);
    assert_eq!(key_action(Key::Other, true, true, false), KeyAction::Ignore);
    assert_eq!(key_action(Key::Escape, false, false, true), KeyAction::Ignore);
    assert_eq!(key_action(Key::O, true, false, true), KeyAction::Ignore);
}

#[test]
fn dragging_and_panning() {
    let d = drag_extent(pos(10, 20), pos(110, 70));
    assert_eq!((d.x, d.y), (100, 50));
    let src: VideoDim<Src> = VideoVector::new(100, 100);
    let inside = release_extent(pos(10, 20), pos(60, 70), src);
    assert_eq!((inside.x, inside.y), (50, 50));
    let beyond = release_extent(pos(10, 20), pos(160, 70), src);
    assert_eq!((beyond.x, beyond.y), (90, 50));
    let corner = release_extent(pos(100, 100), pos(200, 300), src);
    assert_eq!((corner.x, corner.y), (0, 0));
    let p = panned(pos(50, 50), pos(30, 40), pos(10, 40));
    assert_eq!((p.x, p.y), (30, 50));
    let state = InteractState::default();
    assert!(state.rect_drag.is_none() && state.pan_cursor_origin.is_none());
    assert!(state.pan_image_original_pos.is_none());
    assert_eq!((state.pan_pos.x, state.pan_pos.y), (0, 0));
}

#[test]
fn the_timeline_lies_at_the_bottom() {
    let area: VideoDim<Present> = VideoVector::new(960, 600);
    let r = timeline_rect(area);
    assert_eq!((r.pos.x, r.pos.y, r.dim.x, r.dim.y), (20, 580, 920, 12));
    assert!(contains(&r, 20, 580));
    assert!(contains(&r, 939, 591));
    assert!(!contains(&r, 940, 585));
    assert!(!contains(&r, 19, 585));
    assert!(!contains(&r, 100, 592));
    assert!(!contains(&r, 100, 579));
    assert_eq!(timeline_offset(&r, 480), 460);
    let wide: VideoRect<Present> = VideoRect::new(65_000, 65_000, 1_000, 1_000);
    assert!(contains(&wide, 65_535, 65_535));
    let empty: VideoRect<Present> = VideoRect::new(5, 5, 0, 0);
    assert!(!contains(&empty, 5, 5));
}

#[test]
fn flags_and_defaults() {
    assert_eq!(flag_of(true), 1);
    assert_eq!(flag_of(false), 0);
    assert_eq!(bool_of_flag(1), Some(true));
    assert_eq!(bool_of_flag(0), Some(false));
    assert_eq!(bool_of_flag(2), None);
    assert_eq!(bool_of_flag(-1), None);
    let t = Text::default();
    assert_eq!(t.string, "Sample text");
    assert_eq!((t.pos.x, t.pos.y, t.size, t.borderw), (0, 0, 16, 0));
    assert_eq!(t.timespan, TimeSpan { begin: 0, end: 100_000_000 });
    assert_eq!(t.font_path, "");
}

#[test]
fn the_cook_book() {
    let book = recipes();
    assert_eq!(book.len(), 3);
    assert_eq!(book[0].name, "Crop video");
    assert_eq!(book[0].descriptions, vec!["-vf crop=out_w:out_h:x:y out.mp4"]);
    assert_eq!(book[1].name, "Replace audio track");
    assert_eq!(
        book[1].descriptions,
        vec!["-i video.mp4 -i audio.wav -c:v copy -map 0:v:0 -map 1:a:0 out.mp4"]
    );
    assert_eq!(book[2].name, "Burn subtitles");
    assert_eq!(book[2].descriptions, vec!["-vf subtitles=subtitle.srt", "-vf ass=subtitle.ass out.mp4"]);
    assert!(FFMPEG_HELP_TEXT.starts_with("{i}: Currently opened media file\n"));
    assert_eq!(FFMPEG_HELP_TEXT.lines().count(), 4);
}
