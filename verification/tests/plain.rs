use ffmfrog::coords::{Dim, Pos, Present, Src, VideoDim, VideoPos, VideoRect, VideoVector};
use ffmfrog::mpv::commands::{FrameBackStep, FrameStep, LoadFile, PlaylistPlay};
use ffmfrog::mpv::property::{YesNo, YesNoAlways};
use ffmfrog::mpv::{track_idle, MpvEvent};
use ffmfrog::ui::right_panel::{deselect_removed, State};
use ffmfrog::ui::{FileOp, ModalPayload, ModalPopup, Tab};

#[test]
fn vectors_keep_their_magnitudes() {
    let v: VideoVector<Pos, Src> = VideoVector::new(3, 4);
    assert_eq!((v.x, v.y), (3, 4));
    let p: VideoVector<Pos, Present> = v.as_present();
    assert_eq!((p.x, p.y), (3, 4));
    let copy = v;
    assert_eq!((copy.x, v.x), (3, 3));
    let r: VideoRect<Src> = VideoRect::new(1, 2, 30, 40);
    assert_eq!((r.pos.x, r.pos.y, r.dim.x, r.dim.y), (1, 2, 30, 40));
}

#[test]
fn rgba_buffer_length() {
    let d: VideoDim<Src> = VideoVector::<Dim, Src>::new(1920, 1080);
    assert_eq!(d.rgba_bytes_len(), 8_294_400);
    let none: VideoDim<Present> = VideoVector::new(0, 1080);
    assert_eq!(none.rgba_bytes_len(), 0);
    let p: VideoPos<Src> = VideoVector::new(1, 1);
    assert_eq!(p.x, 1);
}

#[test]
fn command_names_and_arguments() {
    let load = LoadFile { path: "/home/my video.mp4" };
    assert_eq!(load.name(), "loadfile");
    assert_eq!(load.args(), vec!["/home/my video.mp4".to_string()]);
    assert_eq!(FrameStep.name(), "frame-step");
    assert!(FrameStep.args().is_empty());
    assert_eq!(FrameBackStep.name(), "frame-back-step");
    assert!(FrameBackStep.args().is_empty());
    assert_eq!(PlaylistPlay::Current.name(), "playlist-play-index");
    assert_eq!(PlaylistPlay::Index(0).args(), vec!["0".to_string()]);
    assert_eq!(PlaylistPlay::Index(4_294_967_295).args(), vec!["4294967295".to_string()]);
    assert_eq!(PlaylistPlay::Current.args(), vec!["current".to_string()]);
    assert_eq!(PlaylistPlay::NoEntry.args(), vec!["none".to_string()]);
}

#[test]
fn property_words() {
    assert_eq!(YesNo::Yes.with_c(), "yes");
    assert_eq!(YesNo::No.with_c(), "no");
    assert_eq!(YesNo::from_c("yes"), Some(YesNo::Yes));
    assert_eq!(YesNo::from_c("no"), Some(YesNo::No));
    assert_eq!(YesNo::from_c("always"), None);
    assert_eq!(YesNoAlways::Always.with_c(), "always");
    assert_eq!(YesNoAlways::from_c("yes"), Some(YesNoAlways::Yes));
    assert_eq!(YesNoAlways::from_c("no"), Some(YesNoAlways::No));
    assert_eq!(YesNoAlways::from_c("always"), Some(YesNoAlways::Always));
    assert_eq!(YesNoAlways::from_c("Yes"), None);
    assert_eq!(YesNoAlways::from_c(""), None);
}

#[test]
fn idle_follows_the_events() {
    assert!(track_idle(false, MpvEvent::Idle));
    assert!(!track_idle(true, MpvEvent::PlaybackRestart));
    assert!(track_idle(true, MpvEvent::Seek));
    assert!(!track_idle(false, MpvEvent::FileLoaded));
    assert!(track_idle(true, MpvEvent::VideoReconfig));
}

#[test]
fn interface_state() {
    let mut popup = ModalPopup::default();
    assert!(popup.payload.is_none());
    popup.err("no such file".to_string());
    assert!(matches!(&popup.payload, Some(ModalPayload::Error { msg }) if msg == "no such file"));
    popup.close();
    assert!(popup.payload.is_none());
    assert_eq!(Tab::Rects.name(), "Rects");
    assert_eq!(Tab::TimeSpans.name(), "Time spans");
    assert_ne!(FileOp::MediaFile, FileOp::Kashimark);
    let state = State::default();
    assert_eq!(state.tab, ffmfrog::ui::right_panel::Tab::Rects);
    assert_eq!(state.tab.name(), "Rects");
    assert_eq!(ffmfrog::ui::right_panel::Tab::Texts.name(), "Texts");
    assert_eq!(ffmfrog::ui::right_panel::Tab::TimeSpans.name(), "Time spans");
    assert!(state.selected_rect.is_none() && state.rename_index.is_none());
    assert_eq!(deselect_removed(Some(2), 2), None);
    assert_eq!(deselect_removed(Some(3), 2), Some(3));
    assert_eq!(deselect_removed(None, 2), None);
}
