//! Core logic of the Hopp screen sharing and remote control client: frame
//! buffers, the share picker, participant bookkeeping, drawing and input state
//! machines, and the messages exchanged with the room.

use vstd::prelude::*;
use vstd::string::StringExecFns;

pub mod audio;
pub mod badge;
pub mod clock;
pub mod camera;
pub mod drawing;
pub mod health;
pub mod participants;
pub mod room_commands;
pub mod room_service;
pub mod screen_selection;
pub mod share_input;
pub mod stats;
pub mod text;
pub mod video;
pub mod video_client;
pub mod windows;

verus! {

/// Errors of the screen sharing session setup.
#[derive(Debug, Clone, Copy, PartialEq, Eq, Structural)]
pub enum ServerError {
    RoomServiceNotFound,
    RoomCreationError,
    PublishTrackError,
    FullscreenError,
    StreamCreationError,
    StreamExtentError,
    WindowCreationError,
    CursorHittestError,
    GfxCreationError,
    CursorControllerCreationError,
}

impl ServerError {
    /// The text of the error, as reported to the desktop app.
    pub open spec fn spec_message(&self) -> Seq<char> {
        match self {
            ServerError::RoomServiceNotFound => "Livekit room service not found"@,
            ServerError::RoomCreationError => "Failed to create Livekit room"@,
            ServerError::PublishTrackError => "Failed to publish track"@,
            ServerError::FullscreenError => "Failed to set overlay window fullscreen"@,
            ServerError::StreamCreationError => "Failed to create stream for screen share"@,
            ServerError::StreamExtentError => "Failed to get stream extent for screen share"@,
            ServerError::WindowCreationError => "Failed to create overlay window"@,
            ServerError::CursorHittestError => "Failed to set cursor hittest for overlay window"@,
            ServerError::GfxCreationError => "Failed to create graphics context"@,
            ServerError::CursorControllerCreationError =>
                "Failed to create cursor controller, accessibility permissions needed"@,
        }
    }

    /// The text of the error, as reported to the desktop app.
    pub fn message(&self) -> (r: String)
        ensures
            r@ == self.spec_message(),
    {
        match self {
            ServerError::RoomServiceNotFound => String::from_str("Livekit room service not found"),
            ServerError::RoomCreationError => String::from_str("Failed to create Livekit room"),
            ServerError::PublishTrackError => String::from_str("Failed to publish track"),
            ServerError::FullscreenError => String::from_str(
                "Failed to set overlay window fullscreen",
            ),
            ServerError::StreamCreationError => String::from_str(
                "Failed to create stream for screen share",
            ),
            ServerError::StreamExtentError => String::from_str(
                "Failed to get stream extent for screen share",
            ),
            ServerError::WindowCreationError => String::from_str("Failed to create overlay window"),
            ServerError::CursorHittestError => String::from_str(
                "Failed to set cursor hittest for overlay window",
            ),
            ServerError::GfxCreationError => String::from_str("Failed to create graphics context"),
            ServerError::CursorControllerCreationError => String::from_str(
                "Failed to create cursor controller, accessibility permissions needed",
            ),
        }
    }
}

/// Errors of the application start-up.
#[derive(Debug)]
pub enum ApplicationError {
    /// The room service could not be created; carries the I/O error's text.
    RoomServiceError(String),
    AudioPlayerError(String),
}

impl ApplicationError {
    /// The text of the error.
    pub open spec fn spec_message(&self) -> Seq<char> {
        match self {
            ApplicationError::RoomServiceError(d) => "Failed to create room service: "@ + d@,
            ApplicationError::AudioPlayerError(d) => "Failed to create audio player: "@ + d@,
        }
    }

    /// The text of the error.
    pub fn message(&self) -> (r: String)
        ensures
            r@ == self.spec_message(),
    {
        match self {
            ApplicationError::RoomServiceError(d) => String::from_str(
                "Failed to create room service: ",
            ).concat(d.as_str()),
            ApplicationError::AudioPlayerError(d) => String::from_str(
                "Failed to create audio player: ",
            ).concat(d.as_str()),
        }
    }
}

/// A keystroke to simulate locally.
#[derive(Debug)]
pub struct KeystrokeData {
    pub key: String,
    pub meta: bool,
    pub shift: bool,
    pub ctrl: bool,
    pub alt: bool,
    pub down: bool,
}

/// A participant that connected to or left the room.
#[derive(Debug)]
pub struct ParticipantData {
    pub name: String,
    pub identity: String,
    pub sid: String,
}

/// Arguments of the render loop.
#[derive(Debug)]
pub struct RenderLoopRunArgs {
    pub textures_path: String,
}

impl RenderLoopRunArgs {
    /// The text describing the arguments.
    pub fn describe(&self) -> (r: String)
        ensures
            r@ == "Textures path: "@ + self.textures_path@,
    {
        String::from_str("Textures path: ").concat(self.textures_path.as_str())
    }
}

} // verus!
