use hopp_core::audio::AudioFrameQueue;
use hopp_core::badge::{clipped_badge_name, SvgRenderError};
use hopp_core::camera::{
    get_initials, local_muted, sid_to_id, truncate_name, CameraCommand, CameraControls, CameraMessage,
};
use hopp_core::clock::{default_clock, Clock, TestClock};
use hopp_core::participants::{ParticipantEntry, ParticipantRecord};
use hopp_core::screen_selection::{
    ListedWindows, ScreenSelectionState, ScreenSelectionTab, ShareableSource,
};
use hopp_core::stats::{
    bits_per_second, codec_label, codec_map, inbound_track_stats, outbound_track_stats,
    resolve_codec, source_frames, total_bytes_sent, trim_chars, RtcStatEntry,
};
use hopp_core::text::{is_whitespace, split_chars, string_from_chars};
use std::time::Duration;

fn source(id: u64, title: &str, app: Option<&str>) -> ShareableSource {
    ShareableSource { monitor_content_id: id, title: title.to_string(), app_name: app.map(|a| a.to_string()) }
}

fn picker() -> ScreenSelectionState {
    ScreenSelectionState::new(
        vec![source(1, "Display 1", None), source(2, "Display 2", None), source(2, "Display 2b", None)],
        Some(ListedWindows { windows: vec![source(9, "Editor", Some("Code"))], error: None }),
    )
}

#[test]
fn picker_starts_on_screens() {
    let s = picker();
    assert_eq!(s.tab, ScreenSelectionTab::Screens);
    assert_eq!(s.selected_index, 0);
    assert_eq!(s.current_sources().len(), 3);
    assert_eq!(s.selected().unwrap().title, "Display 1");
    let ui = s.ui_snapshot();
    assert_eq!(ui.items.len(), 3);
    assert_eq!(ui.items[1].title, "Display 2");
    assert_eq!(ui.items[1].subtitle.as_deref(), Some("Entire screen"));
}

#[test]
fn picker_selection_wraps_around() {
    let mut s = picker();
    s.move_selection(-1);
    assert_eq!(s.selected_index, 2);
    s.move_selection(1);
    assert_eq!(s.selected_index, 0);
    s.move_selection(4);
    assert_eq!(s.selected_index, 1);
    assert!(s.select_index(2));
    assert!(!s.select_index(3));
    assert_eq!(s.selected_index, 2);
    assert!(s.select_display_for_monitor(2));
    assert_eq!(s.selected_index, 1);
    assert!(!s.select_display_for_monitor(7));
}

#[test]
fn picker_tabs() {
    let mut s = picker();
    s.toggle_tab();
    assert_eq!(s.tab, ScreenSelectionTab::Windows);
    assert_eq!(s.selected_index, 0);
    let ui = s.ui_snapshot();
    assert_eq!(ui.items.len(), 1);
    assert_eq!(ui.items[0].subtitle.as_deref(), Some("Code"));
    assert!(!s.select_display_for_monitor(1));
    s.toggle_tab();
    assert_eq!(s.tab, ScreenSelectionTab::Screens);
    let mut no_windows = ScreenSelectionState::new(vec![source(1, "Display 1", None)], None);
    assert!(!no_windows.windows_supported);
    assert_eq!(
        no_windows.windows_hint.as_deref(),
        Some("Window sharing is not available on this platform.")
    );
    no_windows.set_tab(ScreenSelectionTab::Windows);
    assert_eq!(no_windows.tab, ScreenSelectionTab::Screens);
    no_windows.toggle_tab();
    assert_eq!(no_windows.tab, ScreenSelectionTab::Screens);
}

#[test]
fn names_on_tiles() {
    assert_eq!(truncate_name("Alice"), "Alice");
    assert_eq!(truncate_name("Sixteen chars ok"), "Sixteen chars ok");
    assert_eq!(truncate_name("Alexander the Great"), "Alexander the Gr...");
    assert_eq!(clipped_badge_name("Lykourgos Mpezentakos"), "Lykourgos Mpezent...");
    assert_eq!(clipped_badge_name("Joe"), "Joe...");
}

#[test]
fn initials() {
    assert_eq!(get_initials("alice"), vec!["A".to_string()]);
    assert_eq!(get_initials("  ada   lovelace byron "), vec!["A".to_string(), "B".to_string()]);
    assert_eq!(get_initials(""), vec!["\u{1F937}".to_string()]);
    assert_eq!(get_initials("   "), vec!["\u{1F937}".to_string()]);
    assert_eq!(get_initials("élodie durand"), vec!["É".to_string(), "D".to_string()]);
}

#[test]
fn sid_ids_are_stable() {
    assert_eq!(sid_to_id("PA_abc"), sid_to_id("PA_abc"));
    assert_ne!(sid_to_id("PA_abc"), sid_to_id("PA_abd"));
}

fn local(muted: bool) -> ParticipantEntry {
    ParticipantEntry {
        sid: "local".to_string(),
        record: ParticipantRecord {
            identity: "room:r:me:audio".to_string(),
            name: "Me".to_string(),
            muted,
            is_speaking: false,
            is_screensharing: false,
            camera_active: false,
        },
    }
}

#[test]
fn camera_window_controls() {
    assert!(!local_muted(&[]));
    assert!(local_muted(&[local(true)]));
    let mut c = CameraControls::new();
    assert_eq!(c.update(CameraMessage::MicToggle, true), Some(CameraCommand::UnmuteAudio));
    assert_eq!(c.update(CameraMessage::MicToggle, false), Some(CameraCommand::MuteAudio));
    assert_eq!(c.update(CameraMessage::VideoToggle, false), Some(CameraCommand::StartCamera));
    c.set_camera_active(true);
    assert_eq!(c.update(CameraMessage::VideoToggle, false), Some(CameraCommand::StopCamera));
    assert_eq!(c.update(CameraMessage::ScreenShare, false), Some(CameraCommand::OpenContentPicker));
    assert_eq!(c.update(CameraMessage::EndCall, false), Some(CameraCommand::CallEnd));
    assert_eq!(c.update(CameraMessage::LocalTileHover(true), false), None);
    assert!(c.local_tile_hovered);
    assert_eq!(c.update(CameraMessage::ToggleSelfVisibility, false), None);
    assert!(c.self_hidden && !c.local_tile_hovered);
    c.update(CameraMessage::ToggleSelfVisibility, false);
    assert!(!c.self_hidden);
}

#[test]
fn svg_error_texts() {
    assert_eq!(SvgRenderError::SvgParseError("bad".to_string()).message(), "Failed to parse SVG: bad");
    assert_eq!(SvgRenderError::PixmapCreationError.message(), "Failed to create pixmap");
    assert_eq!(SvgRenderError::PngSaveError("io".to_string()).message(), "Failed to save PNG: io");
}

#[test]
fn test_clock_moves_only_when_advanced() {
    let mut c = TestClock::new();
    let t0 = c.now();
    assert_eq!(c.now(), t0);
    c.advance(Duration::from_millis(1500));
    assert_eq!(c.now() - t0, Duration::from_millis(1500));
    let real = default_clock();
    let a = real.now();
    assert!(real.now() >= a);
}

#[test]
fn audio_is_cut_into_ten_millisecond_frames() {
    let mut q = AudioFrameQueue::new(1000);
    let (dropped, frames) = q.ingest(&[1, 2, 3, 4, 5, 6, 7, 8, 9, 10, 11, 12, 13]);
    assert_eq!(dropped, 0);
    assert_eq!(frames, vec![(1..=10).collect::<Vec<i16>>()]);
    let (dropped, frames) = q.ingest(&[14, 15, 16, 17, 18, 19, 20]);
    assert_eq!(dropped, 0);
    assert_eq!(frames, vec![(11..=20).collect::<Vec<i16>>()]);
    let (_, frames) = q.ingest(&[]);
    assert!(frames.is_empty());
}

#[test]
fn audio_backlog_drops_the_oldest_frames() {
    let mut q = AudioFrameQueue::new(100);
    let data: Vec<i16> = (0..13).collect();
    let (dropped, frames) = q.ingest(&data);
    assert_eq!(dropped, 3);
    assert_eq!(frames.len(), 10);
    assert_eq!(frames[0], vec![3]);
    assert_eq!(frames[9], vec![12]);
}

#[test]
fn codec_labels() {
    assert_eq!(codec_label("video/vp8; profile=0"), "VP8");
    assert_eq!(codec_label(" Audio/opus "), "OPUS");
    assert_eq!(codec_label("h264"), "H264");
    assert_eq!(codec_label("video/"), "");
    assert_eq!(codec_label(""), "");
    assert_eq!(codec_label("video/AV1;x/y"), "AV1");
}

#[test]
fn text_helpers() {
    let t: Vec<char> = "\t a b \n".chars().collect();
    assert_eq!(trim_chars(&t).iter().collect::<String>(), "a b");
    assert!(is_whitespace('\u{3000}'));
    assert!(!is_whitespace('x'));
    let parts = split_chars(&"a::b".chars().collect::<Vec<char>>(), ':');
    assert_eq!(parts.len(), 3);
    assert!(parts[1].is_empty());
    assert_eq!(string_from_chars(&['h', 'é']), "hé");
}

fn codec(id: &str, mime: &str) -> RtcStatEntry {
    RtcStatEntry::Codec { id: id.to_string(), mime_type: mime.to_string() }
}

fn sent(id: &str, kind: &str, bytes: u64, active: bool) -> RtcStatEntry {
    RtcStatEntry::OutboundRtp {
        id: id.to_string(),
        kind: kind.to_string(),
        codec_id: "c1".to_string(),
        bytes_sent: bytes,
        active,
        media_source_id: "s1".to_string(),
        encoder_implementation: "libvpx".to_string(),
        frames_encoded: 40,
        quality_limitation_reason: "cpu".to_string(),
        quality_limited_millis: 1500,
    }
}

fn received(id: &str, kind: &str, bytes: u64) -> RtcStatEntry {
    RtcStatEntry::InboundRtp {
        id: id.to_string(),
        kind: kind.to_string(),
        codec_id: "nope".to_string(),
        bytes_received: bytes,
        jitter_buffer_emitted_count: 3,
        decoder_implementation: "dav1d".to_string(),
        frames_received: 10,
        frames_decoded: 9,
        frames_dropped: 1,
        freeze_millis: 0,
    }
}

#[test]
fn codec_lookup_keeps_the_last_record() {
    let stats = vec![codec("c1", "video/VP9"), RtcStatEntry::Other, codec("c1", "video/av1")];
    let codecs = codec_map(&stats);
    assert_eq!(codecs.len(), 2);
    assert_eq!(resolve_codec(&codecs, "c1"), "AV1");
    assert_eq!(resolve_codec(&codecs, "c9"), "c9");
}

#[test]
fn outbound_statistics_of_a_track() {
    let stats = vec![
        sent("a", "audio", 100, true),
        RtcStatEntry::MediaSource { id: "s1".to_string(), kind: "video".to_string(), frames: 50 },
        codec("c1", "video/vp9"),
        sent("o1", "video", 1000, false),
        sent("o2", "video", 2000, true),
        sent("o3", "video", 5, true),
    ];
    assert_eq!(total_bytes_sent(&stats), 3105);
    assert_eq!(source_frames(&stats, "s1"), 50);
    assert_eq!(source_frames(&stats, "s2"), 0);
    let t = outbound_track_stats(&stats, true);
    assert_eq!(t.bytes_sent, 3100);
    let s = t.sample.unwrap();
    assert_eq!(s.id, "o2");
    assert_eq!(s.codec, "VP9");
    assert_eq!(s.encoder, "libvpx");
    assert_eq!((s.source_frames, s.frames_encoded, s.quality_limited_millis), (50, 40, 1500));
    assert_eq!(s.quality_reason, "cpu");
    let t = outbound_track_stats(&stats, false);
    assert_eq!(t.bytes_sent, 3105);
    assert!(t.sample.is_none());
}

#[test]
fn inbound_statistics_of_a_track() {
    let stats = vec![
        received("a", "audio", 7, ),
        received("v1", "video", 100),
        received("v2", "video", 200),
    ];
    let t = inbound_track_stats(&stats, true);
    assert_eq!(t.bytes_received, 100);
    assert_eq!(t.sample_index, Some(1));
    let s = t.sample.unwrap();
    assert_eq!(s.id, "v1");
    assert_eq!(s.codec, "nope");
    assert_eq!(s.decoder, "dav1d");
    assert_eq!((s.frames_received, s.frames_decoded, s.frames_dropped), (10, 9, 1));
    let t = inbound_track_stats(&stats, false);
    assert_eq!(t.bytes_received, 300);
    assert!(t.sample_index.is_none() && t.sample.is_none());
}

#[test]
fn bit_rates() {
    assert_eq!(bits_per_second(0, 1000), None);
    assert_eq!(bits_per_second(100, 1100), Some(8000));
    assert_eq!(bits_per_second(100, 50), Some(0));
}

#[test]
fn picker_selection_from_an_index_past_isize() {
    let mut s = picker();
    s.selected_index = usize::MAX;
    s.move_selection(0);
    assert_eq!(s.selected_index, 2);
}
