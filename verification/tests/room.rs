use hopp_core::participants::update_speaking;
use hopp_core::room_service::{publish_plan, DataMessage};
use hopp_core::participants::{
    any_camera_active, build_participants_snapshot, find_sid_by_identity, is_audio_muted,
    parse_identity_chars, sharer_sid_for, should_track_participant, ParticipantEntry,
    ParticipantRecord,
};
use hopp_core::room_service::{
    clipboard_packets, is_own_event, local_in_control, local_keystroke, paste_requests,
    screen_share_max_bitrate, shows_controller_pointer, DrawSettings,
    DrawingMode, KeystrokeData, RoomServiceError, MAX_CLIPBOARD_PACKET,
};
use hopp_core::{ApplicationError, RenderLoopRunArgs, ServerError};

fn entry(sid: &str, identity: &str, name: &str, muted: bool, screen: bool, camera: bool) -> ParticipantEntry {
    ParticipantEntry {
        sid: sid.to_string(),
        record: ParticipantRecord {
            identity: identity.to_string(),
            name: name.to_string(),
            muted,
            is_speaking: false,
            is_screensharing: screen,
            camera_active: camera,
        },
    }
}

#[test]
fn identities_split_into_user_and_track() {
    let id: Vec<char> = "room:r1:alice:audio".chars().collect();
    let (user, track) = parse_identity_chars(&id).unwrap();
    assert_eq!(user.iter().collect::<String>(), "alice");
    assert_eq!(track.iter().collect::<String>(), "audio");
    let extra: Vec<char> = "room:r1:bob:camera:x".chars().collect();
    let (user, track) = parse_identity_chars(&extra).unwrap();
    assert_eq!(user.iter().collect::<String>(), "bob");
    assert_eq!(track.iter().collect::<String>(), "camera");
    let short: Vec<char> = "room:r1:alice".chars().collect();
    assert!(parse_identity_chars(&short).is_none());
}

#[test]
fn snapshot_has_one_state_per_user() {
    let entries = vec![
        entry("local", "room:r:alice:audio", "Alice", true, false, false),
        entry("PA_2", "room:r:alice:camera", "Alice", false, false, true),
        entry("PA_3", "room:r:bob:video", "Bob", false, true, false),
        entry("PA_4", "bad", "Nobody", false, false, false),
        entry("PA_5", "room:r:bob:audio", "Bob", false, false, false),
    ];
    let snap = build_participants_snapshot(&entries);
    assert_eq!(snap.len(), 2);
    assert_eq!(snap[0].identity, "room:r:alice:audio");
    assert_eq!(snap[0].name, "Alice");
    assert!(snap[0].connected && snap[0].muted && snap[0].has_camera && !snap[0].is_screensharing);
    assert_eq!(snap[1].identity, "room:r:bob:video");
    assert!(snap[1].connected && !snap[1].muted && !snap[1].has_camera && snap[1].is_screensharing);
    assert!(build_participants_snapshot(&[]).is_empty());
}

#[test]
fn participant_lookups() {
    let entries = vec![
        entry("local", "room:r:alice:audio", "Alice", true, false, false),
        entry("PA_3", "room:r:bob:video", "Bob", false, true, false),
        entry("PA_5", "room:r:bob:audio", "Bob", false, false, false),
    ];
    assert!(!any_camera_active(&entries));
    assert!(any_camera_active(&[entry("x", "room:r:c:camera", "C", false, false, true)]));
    assert!(should_track_participant("room:r:bob:audio"));
    assert!(!should_track_participant("room:r:bob:video"));
    assert_eq!(find_sid_by_identity(&entries, "room:r:bob:audio"), Some("PA_5".to_string()));
    assert_eq!(find_sid_by_identity(&entries, "room:r:eve:audio"), None);
    assert_eq!(sharer_sid_for(&entries, "room:r:bob:video", "PA_3"), "PA_5");
    assert_eq!(sharer_sid_for(&entries, "room:r:eve:video", "PA_9"), "PA_9");
    assert_eq!(sharer_sid_for(&entries, "room:r:bob:camera", "PA_9"), "PA_9");
    assert!(is_audio_muted(&entries));
    assert!(is_audio_muted(&entries[1..]));
    let unmuted = vec![entry("local", "room:r:alice:audio", "Alice", false, false, false)];
    assert!(!is_audio_muted(&unmuted));
}

#[test]
fn screen_share_bitrates_by_width() {
    assert_eq!(screen_share_max_bitrate(1920), 2_000_000);
    assert_eq!(screen_share_max_bitrate(2048), 3_500_000);
    assert_eq!(screen_share_max_bitrate(2560), 5_000_000);
    assert_eq!(screen_share_max_bitrate(3840), 8_000_000);
    assert_eq!(screen_share_max_bitrate(1280), 8_000_000);
}

#[test]
fn clipboard_text_is_split_in_15_kib_packets() {
    let bytes: Vec<u8> = (0..(2 * MAX_CLIPBOARD_PACKET + 10)).map(|i| (i % 251) as u8).collect();
    let packets = clipboard_packets(&bytes);
    assert_eq!(packets.len(), 3);
    let mut joined = Vec::new();
    for (i, p) in packets.iter().enumerate() {
        let d = p.data.as_ref().unwrap();
        assert_eq!(d.packet_id, i as u64);
        assert_eq!(d.total_packets, 3);
        joined.extend_from_slice(&d.data);
    }
    assert_eq!(packets[2].data.as_ref().unwrap().data.len(), 10);
    assert_eq!(joined, bytes);
    assert!(clipboard_packets(&[]).is_empty());
    let exact = vec![1u8; MAX_CLIPBOARD_PACKET];
    assert_eq!(clipboard_packets(&exact).len(), 1);
}

#[test]
fn paste_requests_without_text_send_one_empty_request() {
    let none = paste_requests(None);
    assert_eq!(none.len(), 1);
    assert!(none[0].data.is_none());
    let some = paste_requests(Some(&b"hello"[..]));
    assert_eq!(some.len(), 1);
    assert_eq!(some[0].data.as_ref().unwrap().data, b"hello".to_vec());
}

#[test]
fn participant_in_control_packets() {
    assert_eq!(local_in_control(b"PA_me", "PA_me"), Some(true));
    assert_eq!(local_in_control(b"PA_other", "PA_me"), Some(false));
    assert_eq!(local_in_control(&[0xff, 0xfe], "PA_me"), None);
    assert_eq!(local_in_control("PA_é".as_bytes(), "PA_é"), Some(true));
}

#[test]
fn own_events() {
    assert!(is_own_event(Some("PA_me"), "PA_me"));
    assert!(!is_own_event(Some("PA_x"), "PA_me"));
    assert!(!is_own_event(None, "PA_me"));
    assert!(is_own_event(None, ""));
}

#[test]
fn remote_keystrokes_take_the_first_key() {
    let data = KeystrokeData {
        key: vec!["a".to_string(), "b".to_string()],
        meta: true,
        ctrl: false,
        shift: true,
        alt: false,
        down: true,
    };
    let k = local_keystroke(&data);
    assert_eq!(k.key, "a");
    assert!(k.meta && !k.ctrl && k.shift && !k.alt && k.down);
}

#[test]
fn controller_pointer_visibility() {
    assert!(!shows_controller_pointer(DrawingMode::Disabled));
    assert!(shows_controller_pointer(DrawingMode::ClickAnimation));
    assert!(shows_controller_pointer(DrawingMode::Draw(DrawSettings { permanent: false })));
}

#[test]
fn error_texts() {
    assert_eq!(ServerError::RoomServiceNotFound.message(), "Livekit room service not found");
    assert_eq!(
        ServerError::CursorControllerCreationError.message(),
        "Failed to create cursor controller, accessibility permissions needed"
    );
    assert_eq!(ServerError::PublishTrackError.message(), "Failed to publish track");
    assert_eq!(
        ApplicationError::RoomServiceError("no url".to_string()).message(),
        "Failed to create room service: no url"
    );
    assert_eq!(
        ApplicationError::AudioPlayerError("busy".to_string()).message(),
        "Failed to create audio player: busy"
    );
    assert_eq!(RoomServiceError::CreateRoom("x".to_string()).message(), "Failed to create room: x");
    assert_eq!(RoomServiceError::PublishTrack("y".to_string()).message(), "Failed to publish track: y");
    assert_eq!(RoomServiceError::Timeout.message(), "Command timed out");
    let args = RenderLoopRunArgs { textures_path: "/tmp/t".to_string() };
    assert_eq!(args.describe(), "Textures path: /tmp/t");
}

#[test]
fn active_speakers_are_marked() {
    let mut entries = vec![
        entry("local", "room:r:alice:audio", "Alice", true, false, false),
        entry("PA_3", "room:r:bob:audio", "Bob", false, false, true),
    ];
    entries[0].record.is_speaking = true;
    update_speaking(&mut entries, &["PA_3".to_string(), "PA_9".to_string()]);
    assert!(!entries[0].record.is_speaking);
    assert!(entries[1].record.is_speaking);
    assert!(entries[0].record.muted && entries[1].record.camera_active);
    assert_eq!(entries[1].sid, "PA_3");
    update_speaking(&mut entries, &[]);
    assert!(!entries[1].record.is_speaking);
}

#[test]
fn data_messages_topics_and_reliability() {
    let name = |p: hopp_core::room_service::PublishPlan| p.topic.map(|t| t.name());
    let p = publish_plan(DataMessage::CursorPosition);
    assert_eq!((name(p), p.reliable), (Some("sharer_location"), true));
    let p = publish_plan(DataMessage::ControllerCursorEnabled);
    assert_eq!((name(p), p.reliable), (Some("remote_control_enabled"), true));
    let p = publish_plan(DataMessage::ParticipantInControl);
    assert_eq!((name(p), p.reliable), (Some("participant_in_control"), true));
    let p = publish_plan(DataMessage::DrawAddPoint);
    assert_eq!((name(p), p.reliable), (Some("draw"), false));
    let p = publish_plan(DataMessage::DrawEnd);
    assert_eq!((name(p), p.reliable), (Some("draw"), true));
    let p = publish_plan(DataMessage::Keystroke);
    assert_eq!((name(p), p.reliable), (None, true));
    let p = publish_plan(DataMessage::TickResponse);
    assert_eq!(name(p), Some("tick_response"));
}
