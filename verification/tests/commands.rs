use hopp_core::room_commands::{
    room_command_done, room_command_step, video_room_connected, RoomAction, RoomCommand, RoomState,
    TrackEncoding, VideoCodecKind,
};
use hopp_core::room_service::{publish_plan, DataMessage};

fn connected() -> RoomState {
    let (s, _) = room_command_step(RoomState::new(), &RoomCommand::CreateRoom);
    let (s, _) = room_command_done(s, &RoomCommand::CreateRoom, true);
    video_room_connected(s, true)
}

fn results(actions: &[RoomAction]) -> Vec<bool> {
    actions
        .iter()
        .filter_map(|a| match a {
            RoomAction::SendResult(ok) => Some(*ok),
            _ => None,
        })
        .collect()
}

#[test]
fn create_room_closes_the_open_room_first() {
    let s = connected();
    assert!(s.has_room && s.has_video_room);
    let (next, actions) = room_command_step(s, &RoomCommand::CreateRoom);
    assert_eq!(
        actions,
        vec![
            RoomAction::CloseRoom,
            RoomAction::CloseVideoRoom,
            RoomAction::ClearParticipants,
            RoomAction::Connect
        ]
    );
    assert!(!next.has_room && !next.has_video_room);
    let (_, fresh) = room_command_step(RoomState::new(), &RoomCommand::CreateRoom);
    assert_eq!(fresh, vec![RoomAction::ClearParticipants, RoomAction::Connect]);
}

#[test]
fn create_room_reports_one_result_either_way() {
    let (s, _) = room_command_step(RoomState::new(), &RoomCommand::CreateRoom);
    let (ok_state, ok_actions) = room_command_done(s, &RoomCommand::CreateRoom, true);
    assert!(ok_state.has_room);
    assert_eq!(
        ok_actions,
        vec![
            RoomAction::StartStats,
            RoomAction::AddLocalParticipant,
            RoomAction::ConnectVideoRoom,
            RoomAction::WatchRoomEvents,
            RoomAction::SendResult(true)
        ]
    );
    let (failed_state, failed_actions) = room_command_done(s, &RoomCommand::CreateRoom, false);
    assert_eq!(failed_state, s);
    assert_eq!(results(&failed_actions), vec![false]);
    assert_eq!(failed_actions.len(), 1);
}

#[test]
fn screen_share_track_is_vp9_with_width_bitrate() {
    let s = connected();
    for (width, bitrate) in [(1920u32, 2_000_000u64), (2048, 3_500_000), (2560, 5_000_000), (3000, 8_000_000)] {
        let (_, actions) = room_command_step(s, &RoomCommand::PublishTrack { width, height: 1080 });
        assert_eq!(
            actions,
            vec![RoomAction::PublishScreenTrack(TrackEncoding {
                width,
                height: 1080,
                codec: VideoCodecKind::Vp9,
                max_bitrate: bitrate,
                max_framerate: 40,
                simulcast: false,
            })]
        );
    }
    let (next, done) = room_command_done(s, &RoomCommand::PublishTrack { width: 1920, height: 1080 }, true);
    assert!(next.has_buffer_source);
    assert_eq!(done, vec![RoomAction::SendResult(true)]);
}

#[test]
fn screen_share_needs_the_video_room() {
    let (s, _) = room_command_step(RoomState::new(), &RoomCommand::CreateRoom);
    let (s, _) = room_command_done(s, &RoomCommand::CreateRoom, true);
    let s = video_room_connected(s, false);
    let (next, actions) = room_command_step(s, &RoomCommand::PublishTrack { width: 1920, height: 1080 });
    assert_eq!(actions, vec![RoomAction::SendResult(false)]);
    assert_eq!(next, s);
}

#[test]
fn data_commands_without_room_publish_nothing() {
    let s = RoomState::new();
    let (next, actions) = room_command_step(s, &RoomCommand::Publish(DataMessage::CursorPosition));
    assert!(actions.is_empty());
    assert_eq!(next, s);
    let (_, actions) = room_command_step(s, &RoomCommand::ClearPaths(vec![1, 2]));
    assert!(actions.is_empty());
    let (_, actions) = room_command_step(s, &RoomCommand::IterateParticipants);
    assert!(actions.is_empty());
    let (_, actions) = room_command_step(s, &RoomCommand::PublishAudioTrack);
    assert_eq!(actions, vec![RoomAction::SendResult(false)]);
    let (_, actions) = room_command_step(s, &RoomCommand::PublishCameraTrack { width: 640, height: 480 });
    assert_eq!(actions, vec![RoomAction::SendResult(false)]);
}

#[test]
fn data_commands_with_room_are_published_as_planned() {
    let s = connected();
    let (_, actions) = room_command_step(s, &RoomCommand::Publish(DataMessage::CursorPosition));
    assert_eq!(
        actions,
        vec![RoomAction::PublishData(DataMessage::CursorPosition, publish_plan(DataMessage::CursorPosition))]
    );
    if let RoomAction::PublishData(_, plan) = actions[0] {
        assert_eq!(plan.topic.map(|t| t.name()), Some("sharer_location"));
    }
    let plan = publish_plan(DataMessage::DrawClearPath);
    let (_, actions) = room_command_step(s, &RoomCommand::ClearPaths(vec![7, 3, 9]));
    assert_eq!(
        actions,
        vec![
            RoomAction::PublishClearPath(7, plan),
            RoomAction::PublishClearPath(3, plan),
            RoomAction::PublishClearPath(9, plan)
        ]
    );
}

#[test]
fn destroy_room_drops_everything() {
    let s = connected();
    let (s, _) = room_command_done(s, &RoomCommand::PublishTrack { width: 1920, height: 1080 }, true);
    let (next, actions) = room_command_step(s, &RoomCommand::DestroyRoom);
    assert_eq!(
        actions,
        vec![
            RoomAction::StopStats,
            RoomAction::CloseRoom,
            RoomAction::CloseVideoRoom,
            RoomAction::DropScreenSource,
            RoomAction::DropCameraSource,
            RoomAction::StopRemoteShare,
            RoomAction::ClearParticipants
        ]
    );
    assert!(!next.has_room && !next.has_video_room && !next.has_buffer_source && !next.has_camera_source);
    assert!(results(&actions).is_empty());
}

#[test]
fn camera_and_audio_tracks() {
    let s = connected();
    let cmd = RoomCommand::PublishCameraTrack { width: 640, height: 480 };
    let (_, actions) = room_command_step(s, &cmd);
    assert_eq!(
        actions,
        vec![RoomAction::PublishCameraTrack(TrackEncoding {
            width: 640,
            height: 480,
            codec: VideoCodecKind::Vp8,
            max_bitrate: 1_700_000,
            max_framerate: 30,
            simulcast: true,
        })]
    );
    let (s2, done) = room_command_done(s, &cmd, true);
    assert!(s2.has_camera_source);
    assert_eq!(done, vec![RoomAction::SetLocalCamera(true), RoomAction::SendResult(true)]);
    let (s3, actions) = room_command_step(s2, &RoomCommand::UnpublishCameraTrack);
    assert!(!s3.has_camera_source);
    assert_eq!(
        actions,
        vec![RoomAction::UnpublishCameraTrack, RoomAction::DropCameraSource, RoomAction::SetLocalCamera(false)]
    );
    let (_, mute) = room_command_step(s, &RoomCommand::MuteAudioTrack);
    assert!(mute.is_empty());
    let (s4, _) = room_command_done(s, &RoomCommand::PublishAudioTrack, true);
    assert!(s4.has_audio_publisher);
    let (_, mute) = room_command_step(s4, &RoomCommand::MuteAudioTrack);
    assert_eq!(mute, vec![RoomAction::SetAudioMuted(true), RoomAction::SendSnapshot]);
    let (s5, unpublish) = room_command_step(s4, &RoomCommand::UnpublishAudioTrack);
    assert!(!s5.has_audio_publisher);
    assert_eq!(unpublish, vec![RoomAction::UnpublishAudioTrack]);
}

#[test]
fn failed_track_publish_leaves_state() {
    let s = connected();
    let cmd = RoomCommand::PublishTrack { width: 2560, height: 1440 };
    let (after_step, _) = room_command_step(s, &cmd);
    let (after, actions) = room_command_done(after_step, &cmd, false);
    assert_eq!(after, s);
    assert!(!after.has_buffer_source);
    assert_eq!(actions, vec![RoomAction::SendResult(false)]);
    let (_, next_cmd) = room_command_step(after, &RoomCommand::IterateParticipants);
    assert_eq!(next_cmd, vec![RoomAction::AnnounceParticipants, RoomAction::SendSnapshot]);
}
