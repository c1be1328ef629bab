//! The room service's command loop as a state machine: from the state of the
//! connection and a command, the outside work to do and the next state; from
//! the outcome of that work, the result to report. The loop that awaits the
//! work runs outside the library and hands each outcome back.

use crate::room_service::{
    publish_plan, screen_share_max_bitrate, spec_publish_plan, spec_screen_share_max_bitrate,
    DataMessage, PublishPlan, Topic, CAMERA_MAX_BITRATE, CAMERA_MAX_FRAMERATE,
    SCREEN_SHARE_MAX_FRAMERATE,
};
use vstd::prelude::*;

verus! {

/// What the command loop holds between commands.
#[derive(Debug, Clone, Copy, PartialEq, Eq, Structural)]
pub struct RoomState {
    /// A connection to the main room is open.
    pub has_room: bool,
    /// A connection to the room that carries the screen share is open.
    pub has_video_room: bool,
    /// The screen share track is published and takes frames.
    pub has_buffer_source: bool,
    /// The camera track is published and takes frames.
    pub has_camera_source: bool,
    /// The microphone track is published.
    pub has_audio_publisher: bool,
}

impl RoomState {
    /// The state before any command: nothing is connected or published.
    pub fn new() -> (r: RoomState)
        ensures
            !r.has_room,
            !r.has_video_room,
            !r.has_buffer_source,
            !r.has_camera_source,
            !r.has_audio_publisher,
    {
        RoomState {
            has_room: false,
            has_video_room: false,
            has_buffer_source: false,
            has_camera_source: false,
            has_audio_publisher: false,
        }
    }
}

/// The commands the room service handles.
#[derive(Debug, Clone)]
pub enum RoomCommand {
    CreateRoom,
    PublishTrack { width: u32, height: u32 },
    DestroyRoom,
    Publish(DataMessage),
    ClearPaths(Vec<u64>),
    IterateParticipants,
    PublishAudioTrack,
    UnpublishAudioTrack,
    MuteAudioTrack,
    UnmuteAudioTrack,
    PublishCameraTrack { width: u32, height: u32 },
    UnpublishCameraTrack,
    UnpublishScreenShareTrack,
}

/// Video codecs the tracks are encoded with.
#[derive(Debug, Clone, Copy, PartialEq, Eq, Structural)]
pub enum VideoCodecKind {
    Vp8,
    Vp9,
}

/// How a video track is published.
#[derive(Debug, Clone, Copy, PartialEq, Eq, Structural)]
pub struct TrackEncoding {
    pub width: u32,
    pub height: u32,
    pub codec: VideoCodecKind,
    pub max_bitrate: u64,
    pub max_framerate: u32,
    pub simulcast: bool,
}

/// The outside work the command loop does, in order.
#[derive(Debug, Clone, Copy, PartialEq, Eq)]
pub enum RoomAction {
    /// Close the main room connection.
    CloseRoom,
    /// Close the screen share room connection.
    CloseVideoRoom,
    /// Forget every participant.
    ClearParticipants,
    /// Connect to the main room; its outcome decides the command.
    Connect,
    /// Restart the statistics task.
    StartStats,
    /// Stop the statistics task.
    StopStats,
    /// Enter the local participant in the table.
    AddLocalParticipant,
    /// Connect to the screen share room; its outcome only sets whether that
    /// room is open.
    ConnectVideoRoom,
    /// Start handling the main room's events.
    WatchRoomEvents,
    /// Publish the screen share track; its outcome decides the command.
    PublishScreenTrack(TrackEncoding),
    /// Publish the camera track; its outcome decides the command.
    PublishCameraTrack(TrackEncoding),
    /// Publish the microphone track; its outcome decides the command.
    PublishAudioTrack,
    /// Unpublish the screen share track.
    UnpublishScreenTrack,
    /// Unpublish the camera track.
    UnpublishCameraTrack,
    /// Unpublish the microphone track.
    UnpublishAudioTrack,
    /// Drop the screen share frame source.
    DropScreenSource,
    /// Drop the camera frame source.
    DropCameraSource,
    /// Stop receiving the remote screen share and drop its buffer.
    StopRemoteShare,
    /// Mark the local camera active or inactive in the table.
    SetLocalCamera(bool),
    /// Mute or unmute the microphone and mark the local participant so.
    SetAudioMuted(bool),
    /// Enter each remote participant of the room that is missing from the
    /// table, and announce each one.
    AnnounceParticipants,
    /// Send a snapshot of the participant table.
    SendSnapshot,
    /// Publish a data message as planned.
    PublishData(DataMessage, PublishPlan),
    /// Publish the clearing of one drawn path.
    PublishClearPath(u64, PublishPlan),
    /// Report the command's result to the caller that waits for it.
    SendResult(bool),
}

/// The commands whose caller waits for a result.
pub open spec fn needs_result(cmd: RoomCommand) -> bool {
    ||| cmd is CreateRoom
    ||| cmd is PublishTrack
    ||| cmd is PublishAudioTrack
    ||| cmd is PublishCameraTrack
}

/// The actions whose outcome decides a command's result; the loop hands that
/// outcome to `room_command_done`.
pub open spec fn is_awaited(a: RoomAction) -> bool {
    ||| a is Connect
    ||| a is PublishScreenTrack
    ||| a is PublishCameraTrack
    ||| a is PublishAudioTrack
}

/// The screen share track is VP9, with a width-dependent bitrate cap, at
/// most forty frames a second, and a single layer.
pub open spec fn screen_encoding(width: u32, height: u32) -> TrackEncoding {
    TrackEncoding {
        width,
        height,
        codec: VideoCodecKind::Vp9,
        max_bitrate: spec_screen_share_max_bitrate(width),
        max_framerate: 40,
        simulcast: false,
    }
}

/// The camera track is VP8 at 1.7 Mbit/s and thirty frames a second, with
/// simulcast layers.
pub open spec fn camera_encoding(width: u32, height: u32) -> TrackEncoding {
    TrackEncoding {
        width,
        height,
        codec: VideoCodecKind::Vp8,
        max_bitrate: 1_700_000,
        max_framerate: 30,
        simulcast: true,
    }
}

/// Closing whatever connections are open: the main room first.
pub open spec fn closing_actions(s: RoomState) -> Seq<RoomAction> {
    (if s.has_room {
        seq![RoomAction::CloseRoom]
    } else {
        Seq::empty()
    }) + (if s.has_video_room {
        seq![RoomAction::CloseVideoRoom]
    } else {
        Seq::empty()
    })
}

/// The state with both room connections gone.
pub open spec fn disconnected(s: RoomState) -> RoomState {
    RoomState {
        has_room: false,
        has_video_room: false,
        has_buffer_source: s.has_buffer_source,
        has_camera_source: s.has_camera_source,
        has_audio_publisher: s.has_audio_publisher,
    }
}

/// One clearing message per path, in the order given.
pub open spec fn clear_path_actions(ids: Seq<u64>) -> Seq<RoomAction> {
    ids.map_values(|id: u64| RoomAction::PublishClearPath(id, spec_publish_plan(DataMessage::DrawClearPath)))
}

/// What a command does in a given state: the next state and the work to do.
/// A command that needs a room does nothing without one, and one that waits
/// for a result is answered with a failure at once.
pub open spec fn spec_command_step(s: RoomState, cmd: RoomCommand) -> (RoomState, Seq<RoomAction>) {
    match cmd {
        RoomCommand::CreateRoom => (
            disconnected(s),
            closing_actions(s) + seq![RoomAction::ClearParticipants, RoomAction::Connect],
        ),
        RoomCommand::PublishTrack { width, height } => if s.has_video_room {
            (s, seq![RoomAction::PublishScreenTrack(screen_encoding(width, height))])
        } else {
            (s, seq![RoomAction::SendResult(false)])
        },
        RoomCommand::DestroyRoom => (
            RoomState {
                has_room: false,
                has_video_room: false,
                has_buffer_source: false,
                has_camera_source: false,
                has_audio_publisher: s.has_audio_publisher,
            },
            seq![RoomAction::StopStats] + closing_actions(s) + seq![
                RoomAction::DropScreenSource,
                RoomAction::DropCameraSource,
                RoomAction::StopRemoteShare,
                RoomAction::ClearParticipants,
            ],
        ),
        RoomCommand::Publish(m) => if s.has_room {
            (s, seq![RoomAction::PublishData(m, spec_publish_plan(m))])
        } else {
            (s, Seq::empty())
        },
        RoomCommand::ClearPaths(ids) => if s.has_room {
            (s, clear_path_actions(ids@))
        } else {
            (s, Seq::empty())
        },
        RoomCommand::IterateParticipants => if s.has_room {
            (s, seq![RoomAction::AnnounceParticipants, RoomAction::SendSnapshot])
        } else {
            (s, Seq::empty())
        },
        RoomCommand::PublishAudioTrack => if s.has_room {
            (s, seq![RoomAction::PublishAudioTrack])
        } else {
            (s, seq![RoomAction::SendResult(false)])
        },
        RoomCommand::UnpublishAudioTrack => (
            RoomState {
                has_room: s.has_room,
                has_video_room: s.has_video_room,
                has_buffer_source: s.has_buffer_source,
                has_camera_source: s.has_camera_source,
                has_audio_publisher: false,
            },
            if s.has_audio_publisher && s.has_room {
                seq![RoomAction::UnpublishAudioTrack]
            } else {
                Seq::empty()
            },
        ),
        RoomCommand::MuteAudioTrack => (s, if s.has_audio_publisher {
            seq![RoomAction::SetAudioMuted(true), RoomAction::SendSnapshot]
        } else {
            Seq::empty()
        }),
        RoomCommand::UnmuteAudioTrack => (s, if s.has_audio_publisher {
            seq![RoomAction::SetAudioMuted(false), RoomAction::SendSnapshot]
        } else {
            Seq::empty()
        }),
        RoomCommand::PublishCameraTrack { width, height } => if s.has_room {
            (s, seq![RoomAction::PublishCameraTrack(camera_encoding(width, height))])
        } else {
            (s, seq![RoomAction::SendResult(false)])
        },
        RoomCommand::UnpublishCameraTrack => (
            RoomState {
                has_room: s.has_room,
                has_video_room: s.has_video_room,
                has_buffer_source: s.has_buffer_source,
                has_camera_source: false,
                has_audio_publisher: s.has_audio_publisher,
            },
            (if s.has_room {
                seq![RoomAction::UnpublishCameraTrack]
            } else {
                Seq::empty()
            }) + seq![RoomAction::DropCameraSource, RoomAction::SetLocalCamera(false)],
        ),
        RoomCommand::UnpublishScreenShareTrack => (
            RoomState {
                has_room: s.has_room,
                has_video_room: s.has_video_room,
                has_buffer_source: false,
                has_camera_source: s.has_camera_source,
                has_audio_publisher: s.has_audio_publisher,
            },
            (if s.has_video_room {
                seq![RoomAction::UnpublishScreenTrack]
            } else {
                Seq::empty()
            }) + seq![RoomAction::DropScreenSource],
        ),
    }
}

/// What follows the awaited work of a command that waits for a result: on
/// success the rest of the command and `Success`, on failure only `Failure`,
/// with the state left as it was.
pub open spec fn spec_command_done(s: RoomState, cmd: RoomCommand, ok: bool) -> (RoomState, Seq<RoomAction>) {
    if !needs_result(cmd) {
        (s, Seq::empty())
    } else if !ok {
        (s, seq![RoomAction::SendResult(false)])
    } else {
        match cmd {
            RoomCommand::CreateRoom => (
                RoomState {
                    has_room: true,
                    has_video_room: s.has_video_room,
                    has_buffer_source: s.has_buffer_source,
                    has_camera_source: s.has_camera_source,
                    has_audio_publisher: s.has_audio_publisher,
                },
                seq![
                    RoomAction::StartStats,
                    RoomAction::AddLocalParticipant,
                    RoomAction::ConnectVideoRoom,
                    RoomAction::WatchRoomEvents,
                    RoomAction::SendResult(true),
                ],
            ),
            RoomCommand::PublishTrack { .. } => (
                RoomState {
                    has_room: s.has_room,
                    has_video_room: s.has_video_room,
                    has_buffer_source: true,
                    has_camera_source: s.has_camera_source,
                    has_audio_publisher: s.has_audio_publisher,
                },
                seq![RoomAction::SendResult(true)],
            ),
            RoomCommand::PublishAudioTrack => (
                RoomState {
                    has_room: s.has_room,
                    has_video_room: s.has_video_room,
                    has_buffer_source: s.has_buffer_source,
                    has_camera_source: s.has_camera_source,
                    has_audio_publisher: true,
                },
                seq![RoomAction::SendResult(true)],
            ),
            _ => (
                RoomState {
                    has_room: s.has_room,
                    has_video_room: s.has_video_room,
                    has_buffer_source: s.has_buffer_source,
                    has_camera_source: true,
                    has_audio_publisher: s.has_audio_publisher,
                },
                seq![RoomAction::SetLocalCamera(true), RoomAction::SendResult(true)],
            ),
        }
    }
}

fn push_closing(s: RoomState, actions: &mut Vec<RoomAction>)
    ensures
        final(actions)@ == old(actions)@ + closing_actions(s),
{
    if s.has_room {
        actions.push(RoomAction::CloseRoom);
    }
    if s.has_video_room {
        actions.push(RoomAction::CloseVideoRoom);
    }
    proof {
        if s.has_room && s.has_video_room {
            assert(final(actions)@ =~= old(actions)@ + closing_actions(s));
        } else {
            assert(final(actions)@ =~= old(actions)@ + closing_actions(s));
        }
    }
}

/// Handles one command: the next state and the work to do, in order (see
/// `spec_command_step`).
pub fn room_command_step(state: RoomState, cmd: &RoomCommand) -> (r: (RoomState, Vec<RoomAction>))
    ensures
        (r.0, r.1@) == spec_command_step(state, *cmd),
{
    let mut actions: Vec<RoomAction> = Vec::new();
    match cmd {
        RoomCommand::CreateRoom => {
            push_closing(state, &mut actions);
            actions.push(RoomAction::ClearParticipants);
            actions.push(RoomAction::Connect);
            assert(actions@ =~= closing_actions(state) + seq![RoomAction::ClearParticipants, RoomAction::Connect]);
            let next = RoomState {
                has_room: false,
                has_video_room: false,
                has_buffer_source: state.has_buffer_source,
                has_camera_source: state.has_camera_source,
                has_audio_publisher: state.has_audio_publisher,
            };
            (next, actions)
        },
        RoomCommand::PublishTrack { width, height } => {
            if state.has_video_room {
                let encoding = TrackEncoding {
                    width: *width,
                    height: *height,
                    codec: VideoCodecKind::Vp9,
                    max_bitrate: screen_share_max_bitrate(*width),
                    max_framerate: SCREEN_SHARE_MAX_FRAMERATE,
                    simulcast: false,
                };
                actions.push(RoomAction::PublishScreenTrack(encoding));
            } else {
                actions.push(RoomAction::SendResult(false));
            }
            (state, actions)
        },
        RoomCommand::DestroyRoom => {
            actions.push(RoomAction::StopStats);
            push_closing(state, &mut actions);
            actions.push(RoomAction::DropScreenSource);
            actions.push(RoomAction::DropCameraSource);
            actions.push(RoomAction::StopRemoteShare);
            actions.push(RoomAction::ClearParticipants);
            assert(actions@ =~= seq![RoomAction::StopStats] + closing_actions(state) + seq![
                RoomAction::DropScreenSource,
                RoomAction::DropCameraSource,
                RoomAction::StopRemoteShare,
                RoomAction::ClearParticipants,
            ]);
            let next = RoomState {
                has_room: false,
                has_video_room: false,
                has_buffer_source: false,
                has_camera_source: false,
                has_audio_publisher: state.has_audio_publisher,
            };
            (next, actions)
        },
        RoomCommand::Publish(m) => {
            if state.has_room {
                actions.push(RoomAction::PublishData(*m, publish_plan(*m)));
            }
            (state, actions)
        },
        RoomCommand::ClearPaths(ids) => {
            if state.has_room {
                let plan = publish_plan(DataMessage::DrawClearPath);
                let mut i: usize = 0;
                while i < ids.len()
                    invariant
                        i <= ids.len(),
                        plan == spec_publish_plan(DataMessage::DrawClearPath),
                        actions@ =~= clear_path_actions(ids@.subrange(0, i as int)),
                    decreases ids.len() - i,
                {
                    actions.push(RoomAction::PublishClearPath(ids[i], plan));
                    i = i + 1;
                }
                assert(ids@.subrange(0, ids.len() as int) =~= ids@);
            }
            (state, actions)
        },
        RoomCommand::IterateParticipants => {
            if state.has_room {
                actions.push(RoomAction::AnnounceParticipants);
                actions.push(RoomAction::SendSnapshot);
            }
            (state, actions)
        },
        RoomCommand::PublishAudioTrack => {
            if state.has_room {
                actions.push(RoomAction::PublishAudioTrack);
            } else {
                actions.push(RoomAction::SendResult(false));
            }
            (state, actions)
        },
        RoomCommand::UnpublishAudioTrack => {
            if state.has_audio_publisher && state.has_room {
                actions.push(RoomAction::UnpublishAudioTrack);
            }
            let next = RoomState {
                has_room: state.has_room,
                has_video_room: state.has_video_room,
                has_buffer_source: state.has_buffer_source,
                has_camera_source: state.has_camera_source,
                has_audio_publisher: false,
            };
            (next, actions)
        },
        RoomCommand::MuteAudioTrack => {
            if state.has_audio_publisher {
                actions.push(RoomAction::SetAudioMuted(true));
                actions.push(RoomAction::SendSnapshot);
            }
            (state, actions)
        },
        RoomCommand::UnmuteAudioTrack => {
            if state.has_audio_publisher {
                actions.push(RoomAction::SetAudioMuted(false));
                actions.push(RoomAction::SendSnapshot);
            }
            (state, actions)
        },
        RoomCommand::PublishCameraTrack { width, height } => {
            if state.has_room {
                let encoding = TrackEncoding {
                    width: *width,
                    height: *height,
                    codec: VideoCodecKind::Vp8,
                    max_bitrate: CAMERA_MAX_BITRATE,
                    max_framerate: CAMERA_MAX_FRAMERATE,
                    simulcast: true,
                };
                actions.push(RoomAction::PublishCameraTrack(encoding));
            } else {
                actions.push(RoomAction::SendResult(false));
            }
            (state, actions)
        },
        RoomCommand::UnpublishCameraTrack => {
            if state.has_room {
                actions.push(RoomAction::UnpublishCameraTrack);
            }
            actions.push(RoomAction::DropCameraSource);
            actions.push(RoomAction::SetLocalCamera(false));
            let next = RoomState {
                has_room: state.has_room,
                has_video_room: state.has_video_room,
                has_buffer_source: state.has_buffer_source,
                has_camera_source: false,
                has_audio_publisher: state.has_audio_publisher,
            };
            (next, actions)
        },
        RoomCommand::UnpublishScreenShareTrack => {
            if state.has_video_room {
                actions.push(RoomAction::UnpublishScreenTrack);
            }
            actions.push(RoomAction::DropScreenSource);
            let next = RoomState {
                has_room: state.has_room,
                has_video_room: state.has_video_room,
                has_buffer_source: false,
                has_camera_source: state.has_camera_source,
                has_audio_publisher: state.has_audio_publisher,
            };
            (next, actions)
        },
    }
}

/// Takes the outcome of a command's awaited work (see `is_awaited`): the next
/// state and the rest of the work, ending with the result to report (see
/// `spec_command_done`). A failure leaves the state as it was, and the loop
/// goes on with the next command.
pub fn room_command_done(state: RoomState, cmd: &RoomCommand, ok: bool) -> (r: (RoomState, Vec<RoomAction>))
    ensures
        (r.0, r.1@) == spec_command_done(state, *cmd, ok),
{
    let mut actions: Vec<RoomAction> = Vec::new();
    let waits = match cmd {
        RoomCommand::CreateRoom | RoomCommand::PublishTrack { .. } | RoomCommand::PublishAudioTrack
        | RoomCommand::PublishCameraTrack { .. } => true,
        _ => false,
    };
    if !waits {
        return (state, actions);
    }
    if !ok {
        actions.push(RoomAction::SendResult(false));
        return (state, actions);
    }
    let mut next = state;
    match cmd {
        RoomCommand::CreateRoom => {
            next.has_room = true;
            actions.push(RoomAction::StartStats);
            actions.push(RoomAction::AddLocalParticipant);
            actions.push(RoomAction::ConnectVideoRoom);
            actions.push(RoomAction::WatchRoomEvents);
        },
        RoomCommand::PublishTrack { .. } => {
            next.has_buffer_source = true;
        },
        RoomCommand::PublishAudioTrack => {
            next.has_audio_publisher = true;
        },
        _ => {
            next.has_camera_source = true;
            actions.push(RoomAction::SetLocalCamera(true));
        },
    }
    actions.push(RoomAction::SendResult(true));
    (next, actions)
}

/// Takes the outcome of connecting to the screen share room: that room is
/// open exactly when the connection succeeded; nothing else changes.
pub fn video_room_connected(state: RoomState, ok: bool) -> (r: RoomState)
    ensures
        r == (RoomState {
            has_room: state.has_room,
            has_video_room: ok,
            has_buffer_source: state.has_buffer_source,
            has_camera_source: state.has_camera_source,
            has_audio_publisher: state.has_audio_publisher,
        }),
{
    let mut next = state;
    next.has_video_room = ok;
    next
}

/// How many results a run of work reports.
pub open spec fn result_count(a: Seq<RoomAction>) -> nat
    decreases a.len(),
{
    if a.len() == 0 {
        0
    } else {
        result_count(a.drop_last()) + if a.last() is SendResult {
            1nat
        } else {
            0nat
        }
    }
}

/// How many results a command reports in all: those of its own work, and,
/// where that work ends with an awaited action, those of what follows the
/// outcome `ok`.
pub open spec fn results_of(s: RoomState, cmd: RoomCommand, ok: bool) -> nat {
    let (next, work) = spec_command_step(s, cmd);
    result_count(work) + if work.len() > 0 && is_awaited(work.last()) {
        result_count(spec_command_done(next, cmd, ok).1)
    } else {
        0nat
    }
}

proof fn lemma_result_count_concat(a: Seq<RoomAction>, b: Seq<RoomAction>)
    ensures
        result_count(a + b) == result_count(a) + result_count(b),
    decreases b.len(),
{
    if b.len() > 0 {
        lemma_result_count_concat(a, b.drop_last());
        assert((a + b).drop_last() =~= a + b.drop_last());
    } else {
        assert(a + b =~= a);
    }
}

proof fn lemma_clear_paths_report_nothing(ids: Seq<u64>)
    ensures
        result_count(clear_path_actions(ids)) == 0,
        forall|i: int| 0 <= i < ids.len() ==> !is_awaited(#[trigger] clear_path_actions(ids)[i]),
    decreases ids.len(),
{
    if ids.len() > 0 {
        lemma_clear_paths_report_nothing(ids.drop_last());
        assert(clear_path_actions(ids).drop_last() =~= clear_path_actions(ids.drop_last()));
    }
}

proof fn lemma_closing_reports_nothing(s: RoomState)
    ensures
        result_count(closing_actions(s)) == 0,
        forall|i: int| 0 <= i < closing_actions(s).len() ==> !is_awaited(#[trigger] closing_actions(s)[i]),
{
    reveal_with_fuel(result_count, 3);
    if s.has_room && s.has_video_room {
        assert(closing_actions(s) =~= seq![RoomAction::CloseRoom, RoomAction::CloseVideoRoom]);
    } else if s.has_room {
        assert(closing_actions(s) =~= seq![RoomAction::CloseRoom]);
    } else if s.has_video_room {
        assert(closing_actions(s) =~= seq![RoomAction::CloseVideoRoom]);
    } else {
        assert(closing_actions(s) =~= Seq::<RoomAction>::empty());
    }
}

/// Every command whose caller waits for a result reports exactly one result,
/// whatever the state and whatever the outcome of its awaited work; every
/// other command reports none. Awaited work only ever ends a command's own
/// work.
pub proof fn law_one_result_per_command(s: RoomState, cmd: RoomCommand, ok: bool)
    ensures
        results_of(s, cmd, ok) == (if needs_result(cmd) {
            1nat
        } else {
            0nat
        }),
        forall|i: int|
            0 <= i < spec_command_step(s, cmd).1.len() - 1 ==> !is_awaited(
                #[trigger] spec_command_step(s, cmd).1[i],
            ),
{
    reveal_with_fuel(result_count, 6);
    lemma_closing_reports_nothing(s);
    let work = spec_command_step(s, cmd).1;
    match cmd {
        RoomCommand::CreateRoom => {
            lemma_result_count_concat(closing_actions(s), seq![RoomAction::ClearParticipants, RoomAction::Connect]);
        },
        RoomCommand::DestroyRoom => {
            let tail = seq![
                RoomAction::DropScreenSource,
                RoomAction::DropCameraSource,
                RoomAction::StopRemoteShare,
                RoomAction::ClearParticipants,
            ];
            lemma_result_count_concat(seq![RoomAction::StopStats], closing_actions(s));
            lemma_result_count_concat(seq![RoomAction::StopStats] + closing_actions(s), tail);
            assert forall|i: int| 0 <= i < work.len() - 1 implies !is_awaited(#[trigger] work[i]) by {
                if 1 <= i < 1 + closing_actions(s).len() {
                    assert(work[i] == closing_actions(s)[i - 1]);
                }
            }
        },
        RoomCommand::ClearPaths(ids) => {
            lemma_clear_paths_report_nothing(ids@);
        },
        RoomCommand::UnpublishCameraTrack => {
            let head = if s.has_room {
                seq![RoomAction::UnpublishCameraTrack]
            } else {
                Seq::empty()
            };
            lemma_result_count_concat(head, seq![RoomAction::DropCameraSource, RoomAction::SetLocalCamera(false)]);
        },
        RoomCommand::UnpublishScreenShareTrack => {
            let head = if s.has_video_room {
                seq![RoomAction::UnpublishScreenTrack]
            } else {
                Seq::empty()
            };
            lemma_result_count_concat(head, seq![RoomAction::DropScreenSource]);
        },
        _ => {},
    }
}

/// Creating a room while one is open closes it first, and the new
/// connection is the last thing attempted, after the participants are
/// cleared.
pub proof fn law_existing_room_closed_first(s: RoomState)
    ensures
        s.has_room ==> spec_command_step(s, RoomCommand::CreateRoom).1[0] == RoomAction::CloseRoom,
        spec_command_step(s, RoomCommand::CreateRoom).1.last() == RoomAction::Connect,
        spec_command_step(s, RoomCommand::CreateRoom).1[spec_command_step(s, RoomCommand::CreateRoom).1.len() - 2]
            == RoomAction::ClearParticipants,
{
}

/// Without a room, a command that needs one publishes nothing and leaves
/// the state alone; one whose caller waits is answered with a failure and
/// nothing else. Publishing the screen share needs the screen share room.
pub proof fn law_room_checked_first(s: RoomState, cmd: RoomCommand)
    ensures
        !s.has_room && (cmd is Publish || cmd is ClearPaths || cmd is IterateParticipants)
            ==> spec_command_step(s, cmd) == (s, Seq::<RoomAction>::empty()),
        !s.has_room && (cmd is PublishAudioTrack || cmd is PublishCameraTrack)
            ==> spec_command_step(s, cmd) == (s, seq![RoomAction::SendResult(false)]),
        !s.has_video_room && cmd is PublishTrack
            ==> spec_command_step(s, cmd) == (s, seq![RoomAction::SendResult(false)]),
{
}

/// A failed command reports `Failure` and changes nothing more; the loop
/// then takes the next command in the state the failure left.
pub proof fn law_failure_changes_nothing(s: RoomState, cmd: RoomCommand)
    requires
        needs_result(cmd),
    ensures
        spec_command_done(s, cmd, false) == (s, seq![RoomAction::SendResult(false)]),
{
}

/// Muting and unmuting: with a published microphone, `MuteAudioTrack` first
/// mutes it and `UnmuteAudioTrack` first unmutes it, each followed by a
/// snapshot; without one they do nothing. No other command touches the
/// microphone's mute, so the flag of a `SetAudioMuted` is true exactly when
/// the command is `MuteAudioTrack`.
pub proof fn law_mute_follows_the_command(s: RoomState, cmd: RoomCommand)
    ensures
        forall|i: int|
            0 <= i < spec_command_step(s, cmd).1.len() && (#[trigger] spec_command_step(s, cmd).1[i]) is SetAudioMuted
                ==> (cmd is MuteAudioTrack || cmd is UnmuteAudioTrack) && spec_command_step(s, cmd).1[i]
                == RoomAction::SetAudioMuted(cmd is MuteAudioTrack),
        s.has_audio_publisher && (cmd is MuteAudioTrack || cmd is UnmuteAudioTrack) ==> {
            &&& spec_command_step(s, cmd).1.len() > 0
            &&& spec_command_step(s, cmd).1[0] == RoomAction::SetAudioMuted(cmd is MuteAudioTrack)
            &&& spec_command_step(s, cmd).1.last() == RoomAction::SendSnapshot
        },
        !s.has_audio_publisher && (cmd is MuteAudioTrack || cmd is UnmuteAudioTrack)
            ==> spec_command_step(s, cmd).1.len() == 0,
        forall|ok: bool, i: int|
            0 <= i < spec_command_done(s, cmd, ok).1.len() ==> !(#[trigger] spec_command_done(s, cmd, ok).1[i] is SetAudioMuted),
{
    let work = spec_command_step(s, cmd).1;
    lemma_closing_reports_nothing(s);
    match cmd {
        RoomCommand::CreateRoom => {
            assert forall|i: int| 0 <= i < work.len() implies !(#[trigger] work[i] is SetAudioMuted) by {
                if i < closing_actions(s).len() {
                    assert(work[i] == closing_actions(s)[i]);
                }
            }
        },
        RoomCommand::DestroyRoom => {
            assert forall|i: int| 0 <= i < work.len() implies !(#[trigger] work[i] is SetAudioMuted) by {
                if 1 <= i < 1 + closing_actions(s).len() {
                    assert(work[i] == closing_actions(s)[i - 1]);
                }
            }
        },
        _ => {},
    }
}

/// The published video tracks: the screen share track is VP9 at the size of
/// the command, capped at 2 Mbit/s for a width of 1920, 3.5 for 2048, 5 for
/// 2560 and 8 for any other width, at most 40 frames a second, without
/// simulcast; the camera track is VP8 at the size of the command, capped at
/// 1.7 Mbit/s and 30 frames a second, with simulcast. No other command
/// publishes a track.
pub proof fn law_track_encodings(s: RoomState, cmd: RoomCommand)
    ensures
        forall|i: int|
            0 <= i < spec_command_step(s, cmd).1.len() && (#[trigger] spec_command_step(s, cmd).1[i]) is PublishScreenTrack
                ==> ({
                let e = spec_command_step(s, cmd).1[i]->PublishScreenTrack_0;
                &&& cmd matches RoomCommand::PublishTrack { width, height } && e.width == width && e.height == height
                &&& e.codec == VideoCodecKind::Vp9
                &&& e.max_bitrate == (if e.width == 1920 {
                    2_000_000u64
                } else if e.width == 2048 {
                    3_500_000u64
                } else if e.width == 2560 {
                    5_000_000u64
                } else {
                    8_000_000u64
                })
                &&& e.max_framerate == 40
                &&& !e.simulcast
            }),
        forall|i: int|
            0 <= i < spec_command_step(s, cmd).1.len() && (#[trigger] spec_command_step(s, cmd).1[i]) is PublishCameraTrack
                ==> ({
                let e = spec_command_step(s, cmd).1[i]->PublishCameraTrack_0;
                &&& cmd matches RoomCommand::PublishCameraTrack { width, height } && e.width == width && e.height == height
                &&& e.codec == VideoCodecKind::Vp8
                &&& e.max_bitrate == 1_700_000
                &&& e.max_framerate == 30
                &&& e.simulcast
            }),
        s.has_video_room && cmd is PublishTrack ==> spec_command_step(s, cmd).1.len() == 1
            && spec_command_step(s, cmd).1[0] is PublishScreenTrack,
        s.has_room && cmd is PublishCameraTrack ==> spec_command_step(s, cmd).1.len() == 1
            && spec_command_step(s, cmd).1[0] is PublishCameraTrack,
{
    let work = spec_command_step(s, cmd).1;
    lemma_closing_reports_nothing(s);
    match cmd {
        RoomCommand::CreateRoom => {
            assert forall|i: int| 0 <= i < work.len() implies !(#[trigger] work[i] is PublishScreenTrack) && !(work[i] is PublishCameraTrack) by {
                if i < closing_actions(s).len() {
                    assert(work[i] == closing_actions(s)[i]);
                }
            }
        },
        RoomCommand::DestroyRoom => {
            assert forall|i: int| 0 <= i < work.len() implies !(#[trigger] work[i] is PublishScreenTrack) && !(work[i] is PublishCameraTrack) by {
                if 1 <= i < 1 + closing_actions(s).len() {
                    assert(work[i] == closing_actions(s)[i - 1]);
                }
            }
        },
        _ => {},
    }
}

/// What the commands do to the state. A command's own work never opens a
/// connection or publishes anything: it only closes or drops. Creating a
/// room closes both connections; destroying it closes them and drops both
/// frame sources; unpublishing a track drops just that track's flag. Only
/// the success of a command's awaited work raises a flag: the room for
/// `CreateRoom`, the screen share source for `PublishTrack`, the microphone
/// for `PublishAudioTrack`, the camera source for `PublishCameraTrack`;
/// everything else is kept, and a failure keeps everything.
pub proof fn law_state_follows_commands(s: RoomState, cmd: RoomCommand, ok: bool)
    ensures
        ({
            let n = spec_command_step(s, cmd).0;
            &&& n.has_room ==> s.has_room
            &&& n.has_video_room ==> s.has_video_room
            &&& n.has_buffer_source ==> s.has_buffer_source
            &&& n.has_camera_source ==> s.has_camera_source
            &&& n.has_audio_publisher ==> s.has_audio_publisher
            &&& (cmd is CreateRoom || cmd is DestroyRoom) ==> !n.has_room && !n.has_video_room
            &&& cmd is DestroyRoom ==> !n.has_buffer_source && !n.has_camera_source
                && n.has_audio_publisher == s.has_audio_publisher
            &&& cmd is CreateRoom ==> n.has_buffer_source == s.has_buffer_source && n.has_camera_source
                == s.has_camera_source && n.has_audio_publisher == s.has_audio_publisher
            &&& cmd is UnpublishScreenShareTrack ==> n == (RoomState { has_buffer_source: false, ..s })
            &&& cmd is UnpublishCameraTrack ==> n == (RoomState { has_camera_source: false, ..s })
            &&& cmd is UnpublishAudioTrack ==> n == (RoomState { has_audio_publisher: false, ..s })
            &&& !(cmd is CreateRoom || cmd is DestroyRoom || cmd is UnpublishScreenShareTrack
                || cmd is UnpublishCameraTrack || cmd is UnpublishAudioTrack) ==> n == s
        }),
        ({
            let d = spec_command_done(s, cmd, ok).0;
            &&& !ok ==> d == s
            &&& ok && cmd is CreateRoom ==> d == (RoomState { has_room: true, ..s })
            &&& ok && cmd is PublishTrack ==> d == (RoomState { has_buffer_source: true, ..s })
            &&& ok && cmd is PublishAudioTrack ==> d == (RoomState { has_audio_publisher: true, ..s })
            &&& ok && cmd is PublishCameraTrack ==> d == (RoomState { has_camera_source: true, ..s })
            &&& !needs_result(cmd) ==> d == s
        }),
{
}

/// The results a command reports: its own work only ever reports a failure
/// (the room it needs is missing); after its awaited work the result is the
/// outcome of that work. Only after a successful camera publish is the local
/// camera marked on, and only unpublishing the camera marks it off.
pub proof fn law_results_are_outcomes(s: RoomState, cmd: RoomCommand, ok: bool)
    ensures
        forall|i: int|
            0 <= i < spec_command_step(s, cmd).1.len() && (#[trigger] spec_command_step(s, cmd).1[i]) is SendResult
                ==> spec_command_step(s, cmd).1[i] == RoomAction::SendResult(false),
        forall|i: int|
            0 <= i < spec_command_done(s, cmd, ok).1.len() && (#[trigger] spec_command_done(s, cmd, ok).1[i]) is SendResult
                ==> spec_command_done(s, cmd, ok).1[i] == RoomAction::SendResult(ok),
        forall|i: int|
            0 <= i < spec_command_step(s, cmd).1.len() && (#[trigger] spec_command_step(s, cmd).1[i]) is SetLocalCamera
                ==> cmd is UnpublishCameraTrack && spec_command_step(s, cmd).1[i] == RoomAction::SetLocalCamera(false),
        forall|i: int|
            0 <= i < spec_command_done(s, cmd, ok).1.len() && (#[trigger] spec_command_done(s, cmd, ok).1[i]) is SetLocalCamera
                ==> ok && cmd is PublishCameraTrack && spec_command_done(s, cmd, ok).1[i] == RoomAction::SetLocalCamera(true),
{
    let work = spec_command_step(s, cmd).1;
    lemma_closing_reports_nothing(s);
    match cmd {
        RoomCommand::CreateRoom => {
            assert forall|i: int| 0 <= i < work.len() implies !(#[trigger] work[i] is SendResult) && !(work[i] is SetLocalCamera) by {
                if i < closing_actions(s).len() {
                    assert(work[i] == closing_actions(s)[i]);
                }
            }
        },
        RoomCommand::DestroyRoom => {
            assert forall|i: int| 0 <= i < work.len() implies !(#[trigger] work[i] is SendResult) && !(work[i] is SetLocalCamera) by {
                if 1 <= i < 1 + closing_actions(s).len() {
                    assert(work[i] == closing_actions(s)[i - 1]);
                }
            }
        },
        _ => {},
    }
}

/// Data goes out only for data commands with a room: a `Publish` of a
/// message sends exactly that message, planned as its kind requires, and a
/// `ClearPaths` sends one reliable clearing on the draw topic per path, in
/// the order given.
pub proof fn law_data_follows_commands(s: RoomState, cmd: RoomCommand)
    ensures
        forall|i: int|
            0 <= i < spec_command_step(s, cmd).1.len() && (#[trigger] spec_command_step(s, cmd).1[i]) is PublishData
                ==> s.has_room && (cmd matches RoomCommand::Publish(m) && spec_command_step(s, cmd).1[i]
                == RoomAction::PublishData(m, spec_publish_plan(m))),
        s.has_room && cmd is Publish ==> spec_command_step(s, cmd).1.len() == 1,
        s.has_room && cmd is ClearPaths ==> spec_command_step(s, cmd).1.len() == (cmd->ClearPaths_0)@.len()
            && forall|i: int|
            0 <= i < (cmd->ClearPaths_0)@.len() ==> #[trigger] spec_command_step(s, cmd).1[i]
                == RoomAction::PublishClearPath(
                (cmd->ClearPaths_0)@[i],
                (PublishPlan { topic: Some(Topic::Draw), reliable: true }),
            ),
        !(cmd is ClearPaths) ==> forall|i: int|
            0 <= i < spec_command_step(s, cmd).1.len() ==> !(#[trigger] spec_command_step(s, cmd).1[i] is PublishClearPath),
{
    let work = spec_command_step(s, cmd).1;
    lemma_closing_reports_nothing(s);
    match cmd {
        RoomCommand::CreateRoom => {
            assert forall|i: int| 0 <= i < work.len() implies !(#[trigger] work[i] is PublishData) && !(work[i] is PublishClearPath) by {
                if i < closing_actions(s).len() {
                    assert(work[i] == closing_actions(s)[i]);
                }
            }
        },
        RoomCommand::DestroyRoom => {
            assert forall|i: int| 0 <= i < work.len() implies !(#[trigger] work[i] is PublishData) && !(work[i] is PublishClearPath) by {
                if 1 <= i < 1 + closing_actions(s).len() {
                    assert(work[i] == closing_actions(s)[i - 1]);
                }
            }
        },
        _ => {},
    }
}

} // verus!
