use hopp_core::participants::{
    insert_participant_if_absent, remove_participant, room_event_step, set_participant_muted,
    EventAction, ParticipantEntry, ParticipantRecord, RoomEventKind,
};

fn entry(sid: &str, identity: &str, camera: bool) -> ParticipantEntry {
    ParticipantEntry {
        sid: sid.to_string(),
        record: ParticipantRecord {
            identity: identity.to_string(),
            name: "N".to_string(),
            muted: false,
            is_speaking: false,
            is_screensharing: false,
            camera_active: camera,
        },
    }
}

fn sids(t: &[ParticipantEntry]) -> Vec<&str> {
    t.iter().map(|e| e.sid.as_str()).collect()
}

#[test]
fn inserting_keeps_one_row_per_sid() {
    let mut t = Vec::new();
    assert!(insert_participant_if_absent(&mut t, entry("PA_1", "room:r:alice:audio", false)));
    assert!(!insert_participant_if_absent(&mut t, entry("PA_1", "room:r:alice:camera", true)));
    assert!(!insert_participant_if_absent(&mut t, entry("PA_2", "room:r:alice:video", false)));
    assert!(insert_participant_if_absent(&mut t, entry("PA_3", "room:r:bob:audio", false)));
    assert_eq!(sids(&t), vec!["PA_1", "PA_3"]);
    assert_eq!(t[0].record.identity, "room:r:alice:audio");
}

#[test]
fn removing_takes_out_the_row() {
    let mut t = Vec::new();
    insert_participant_if_absent(&mut t, entry("PA_1", "room:r:alice:audio", false));
    insert_participant_if_absent(&mut t, entry("PA_2", "room:r:bob:audio", false));
    insert_participant_if_absent(&mut t, entry("PA_3", "room:r:carol:audio", false));
    let gone = remove_participant(&mut t, "PA_2").unwrap();
    assert_eq!(gone.sid, "PA_2");
    assert_eq!(sids(&t), vec!["PA_1", "PA_3"]);
    assert!(remove_participant(&mut t, "PA_9").is_none());
    assert_eq!(sids(&t), vec!["PA_1", "PA_3"]);
}

#[test]
fn join_then_leave_restores_the_table() {
    let mut t = Vec::new();
    insert_participant_if_absent(&mut t, entry("PA_1", "room:r:alice:audio", false));
    insert_participant_if_absent(&mut t, entry("PA_2", "room:r:bob:audio", false));
    let joined = room_event_step(&mut t, RoomEventKind::ParticipantConnected(entry("PA_5", "room:r:dan:audio", false)));
    assert_eq!(joined, vec![EventAction::AnnounceConnected, EventAction::SendSnapshot]);
    assert_eq!(sids(&t), vec!["PA_1", "PA_2", "PA_5"]);
    room_event_step(&mut t, RoomEventKind::ParticipantDisconnected("PA_5".to_string()));
    assert_eq!(sids(&t), vec!["PA_1", "PA_2"]);
}

#[test]
fn repeated_or_video_joins_do_nothing() {
    let mut t = Vec::new();
    insert_participant_if_absent(&mut t, entry("PA_1", "room:r:alice:audio", false));
    let again = room_event_step(&mut t, RoomEventKind::ParticipantConnected(entry("PA_1", "room:r:alice:audio", false)));
    assert!(again.is_empty());
    let video = room_event_step(&mut t, RoomEventKind::ParticipantConnected(entry("PA_7", "room:r:alice:video", false)));
    assert!(video.is_empty());
    assert_eq!(sids(&t), vec!["PA_1"]);
}

#[test]
fn leaving_closes_the_camera_window_only_without_cameras() {
    let mut t = Vec::new();
    insert_participant_if_absent(&mut t, entry("PA_1", "room:r:alice:camera", true));
    insert_participant_if_absent(&mut t, entry("PA_2", "room:r:bob:camera", true));
    let first = room_event_step(&mut t, RoomEventKind::ParticipantDisconnected("PA_1".to_string()));
    assert_eq!(
        first,
        vec![EventAction::StopStreams, EventAction::AnnounceDisconnected, EventAction::SendSnapshot]
    );
    let second = room_event_step(&mut t, RoomEventKind::ParticipantDisconnected("PA_2".to_string()));
    assert_eq!(
        second,
        vec![
            EventAction::StopStreams,
            EventAction::CloseCameraWindow,
            EventAction::AnnounceDisconnected,
            EventAction::SendSnapshot
        ]
    );
    let unknown = room_event_step(&mut t, RoomEventKind::ParticipantDisconnected("PA_9".to_string()));
    assert_eq!(
        unknown,
        vec![EventAction::CloseCameraWindow, EventAction::AnnounceDisconnected, EventAction::SendSnapshot]
    );
}

#[test]
fn mute_and_speakers_events() {
    let mut t = Vec::new();
    insert_participant_if_absent(&mut t, entry("PA_1", "room:r:alice:audio", false));
    insert_participant_if_absent(&mut t, entry("PA_2", "room:r:bob:audio", false));
    let r = room_event_step(&mut t, RoomEventKind::AudioMuted { sid: "PA_2".to_string(), muted: true });
    assert_eq!(r, vec![EventAction::SendSnapshot]);
    assert!(!t[0].record.muted && t[1].record.muted);
    set_participant_muted(&mut t, "PA_2", false);
    assert!(!t[1].record.muted);
    let r = room_event_step(&mut t, RoomEventKind::SpeakersChanged(vec!["PA_1".to_string()]));
    assert!(r.is_empty());
    assert!(t[0].record.is_speaking && !t[1].record.is_speaking);
}
