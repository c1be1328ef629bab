//! Messages exchanged with the other participants of a room and the decisions
//! the room service makes about what to publish and how.

use crate::text::{chars_eq, chars_of};
use vstd::prelude::*;
use vstd::string::StringExecFns;

verus! {

/// Topic of the sharer's cursor location.
pub const TOPIC_SHARER_LOCATION: &'static str = "sharer_location";

/// Topic of remote control enable/disable notifications.
pub const TOPIC_REMOTE_CONTROL_ENABLED: &'static str = "remote_control_enabled";

/// Topic announcing which participant is in control (raw UTF-8 SID payload).
pub const TOPIC_PARTICIPANT_IN_CONTROL: &'static str = "participant_in_control";

/// Topic of latency-measurement replies.
pub const TOPIC_TICK_RESPONSE: &'static str = "tick_response";

/// Topic of drawing and click-animation events.
pub const TOPIC_DRAW: &'static str = "draw";

/// Name of the published screen share track.
pub const VIDEO_TRACK_NAME: &'static str = "screen_share";

/// Name of the published camera track.
pub const CAMERA_TRACK_NAME: &'static str = "camera";

/// Maximum camera bitrate in bits per second.
pub const CAMERA_MAX_BITRATE: u64 = 1_700_000;

/// Maximum frame rate of the screen share track.
pub const SCREEN_SHARE_MAX_FRAMERATE: u32 = 40;

/// Maximum frame rate of the camera track.
pub const CAMERA_MAX_FRAMERATE: u32 = 30;

/// Largest chunk of clipboard data sent in one packet.
pub const MAX_CLIPBOARD_PACKET: usize = 15360;

/// Errors of the room service.
#[derive(Debug)]
pub enum RoomServiceError {
    CreateRoom(String),
    PublishTrack(String),
    Timeout,
}

impl RoomServiceError {
    /// The text of the error, as shown to the user.
    pub open spec fn spec_message(&self) -> Seq<char> {
        match self {
            RoomServiceError::CreateRoom(detail) => "Failed to create room: "@ + detail@,
            RoomServiceError::PublishTrack(detail) => "Failed to publish track: "@ + detail@,
            RoomServiceError::Timeout => "Command timed out"@,
        }
    }

    /// The text of the error, as shown to the user.
    pub fn message(&self) -> (r: String)
        ensures
            r@ == self.spec_message(),
    {
        match self {
            RoomServiceError::CreateRoom(detail) => String::from_str("Failed to create room: ").concat(
                detail.as_str(),
            ),
            RoomServiceError::PublishTrack(detail) => String::from_str(
                "Failed to publish track: ",
            ).concat(detail.as_str()),
            RoomServiceError::Timeout => String::from_str("Command timed out"),
        }
    }
}

/// Whether the mouse cursor should be visible on remote clients.
#[derive(Debug, Clone, Copy, PartialEq, Eq, Structural)]
pub struct MouseVisibleData {
    pub visible: bool,
}

/// A keyboard event sent by a remote controller.
#[derive(Debug)]
pub struct KeystrokeData {
    /// The key(s) pressed, as string representations.
    pub key: Vec<String>,
    pub meta: bool,
    pub ctrl: bool,
    pub shift: bool,
    pub alt: bool,
    /// Whether the key is pressed (true) or released (false).
    pub down: bool,
}

/// Timing data for latency measurement.
#[derive(Debug, Clone, Copy, PartialEq, Eq, Structural)]
pub struct TickData {
    pub time: u128,
}

/// Whether remote control is currently enabled in the room.
#[derive(Debug, Clone, Copy, PartialEq, Eq, Structural)]
pub struct RemoteControlEnabled {
    pub enabled: bool,
}

/// A copy (`is_copy`) or cut request from a remote controller.
#[derive(Debug, Clone, Copy, PartialEq, Eq, Structural)]
pub struct AddToClipboardData {
    pub is_copy: bool,
}

/// One packet of clipboard data.
#[derive(Debug)]
pub struct ClipboardPayload {
    pub packet_id: u64,
    pub total_packets: u64,
    pub data: Vec<u8>,
}

/// A paste request; carries one packet of clipboard data, if any.
#[derive(Debug)]
pub struct PasteFromClipboardData {
    pub data: Option<ClipboardPayload>,
}

/// Settings specific to the Draw mode.
#[derive(Debug, Clone, Copy, PartialEq, Eq, Structural)]
pub struct DrawSettings {
    /// Whether drawn lines stay until cleared, or fade away after a while.
    pub permanent: bool,
}

/// The type of drawing operation, or the disabled state.
#[derive(Debug, Clone, Copy, PartialEq, Eq, Structural)]
pub enum DrawingMode {
    Disabled,
    Draw(DrawSettings),
    ClickAnimation,
}

/// The bitrate cap of the screen share track, in bits per second: the
/// track is encoded with VP9 and its cap grows with the stream's width.
pub open spec fn spec_screen_share_max_bitrate(width: u32) -> u64 {
    if width == 1920 {
        2_000_000
    } else if width == 2048 {
        3_500_000
    } else if width == 2560 {
        5_000_000
    } else {
        8_000_000
    }
}

/// The bitrate cap of the screen share track for a stream of the given width.
pub fn screen_share_max_bitrate(width: u32) -> (r: u64)
    ensures
        r == spec_screen_share_max_bitrate(width),
{
    match width {
        1920 => 2_000_000,
        2048 => 3_500_000,
        2560 => 5_000_000,
        _ => 8_000_000,
    }
}

/// Number of packets a clipboard text of `len` bytes is sent in.
pub open spec fn packet_count(len: int) -> int {
    (len + MAX_CLIPBOARD_PACKET - 1) / (MAX_CLIPBOARD_PACKET as int)
}

/// The bytes of packet `i` of a clipboard text.
pub open spec fn packet_bytes(bytes: Seq<u8>, i: int) -> Seq<u8> {
    let start = i * MAX_CLIPBOARD_PACKET;
    let end = if (i + 1) * MAX_CLIPBOARD_PACKET < bytes.len() {
        (i + 1) * MAX_CLIPBOARD_PACKET
    } else {
        bytes.len() as int
    };
    bytes.subrange(start, end)
}

/// Splits clipboard text into the paste packets sent to the sharer: packet `i`
/// holds bytes `[i * 15 KiB, min((i + 1) * 15 KiB, len))`, and every packet
/// carries its index and the packet count.
pub fn clipboard_packets(bytes: &[u8]) -> (r: Vec<PasteFromClipboardData>)
    requires
        bytes@.len() + MAX_CLIPBOARD_PACKET <= usize::MAX,
    ensures
        r@.len() == packet_count(bytes@.len() as int),
        forall|i: int|
            0 <= i < r@.len() ==> {
                &&& (#[trigger] r@[i]).data is Some
                &&& r@[i].data->0.packet_id == i
                &&& r@[i].data->0.total_packets == r@.len()
                &&& r@[i].data->0.data@ == packet_bytes(bytes@, i)
            },
{
    let len = bytes.len();
    let total = len / MAX_CLIPBOARD_PACKET + if len % MAX_CLIPBOARD_PACKET == 0 {
        0
    } else {
        1
    };
    proof {
        assert(total == packet_count(len as int)) by (nonlinear_arith)
            requires
                total == len / 15360 + if len % 15360 == 0 {
                    0int
                } else {
                    1int
                },
                len >= 0,
        ;
        assert(total * MAX_CLIPBOARD_PACKET < len + MAX_CLIPBOARD_PACKET) by (nonlinear_arith)
            requires
                total == packet_count(len as int),
                len >= 0,
        ;
    }
    let mut out: Vec<PasteFromClipboardData> = Vec::new();
    let mut i: usize = 0;
    while i < total
        invariant
            len == bytes@.len(),
            len + MAX_CLIPBOARD_PACKET <= usize::MAX,
            total == packet_count(len as int),
            total * MAX_CLIPBOARD_PACKET < len + MAX_CLIPBOARD_PACKET,
            i <= total,
            out@.len() == i,
            forall|k: int|
                0 <= k < i ==> {
                    &&& (#[trigger] out@[k]).data is Some
                    &&& out@[k].data->0.packet_id == k
                    &&& out@[k].data->0.total_packets == total
                    &&& out@[k].data->0.data@ == packet_bytes(bytes@, k)
                },
        decreases total - i,
    {
        proof {
            assert((i + 1) * MAX_CLIPBOARD_PACKET <= total * MAX_CLIPBOARD_PACKET) by (
            nonlinear_arith)
                requires
                    i + 1 <= total,
            ;
            assert(i * MAX_CLIPBOARD_PACKET < len) by (nonlinear_arith)
                requires
                    i < total,
                    total == (len + 15360 - 1) / 15360,
                    len >= 0,
            ;
        }
        let start = i * MAX_CLIPBOARD_PACKET;
        let next = start + MAX_CLIPBOARD_PACKET;
        let end = if next < len {
            next
        } else {
            len
        };
        let mut chunk: Vec<u8> = Vec::new();
        let mut j: usize = start;
        while j < end
            invariant
                start <= j <= end,
                end <= bytes@.len(),
                chunk@ == bytes@.subrange(start as int, j as int),
            decreases end - j,
        {
            chunk.push(bytes[j]);
            j += 1;
            assert(chunk@ =~= bytes@.subrange(start as int, j as int));
        }
        let ghost idx = i as int;
        assert(chunk@ == packet_bytes(bytes@, idx));
        out.push(
            PasteFromClipboardData {
                data: Some(
                    ClipboardPayload { packet_id: i as u64, total_packets: total as u64, data: chunk },
                ),
            },
        );
        i += 1;
    }
    out
}

/// The paste requests sent for a paste: the packets of the clipboard text, or
/// a single request without data when there is no text.
pub fn paste_requests(text: Option<&[u8]>) -> (r: Vec<PasteFromClipboardData>)
    requires
        text matches Some(bytes) ==> bytes@.len() + MAX_CLIPBOARD_PACKET <= usize::MAX,
    ensures
        match text {
            Some(bytes) => r@.len() == packet_count(bytes@.len() as int) && forall|i: int|
                0 <= i < r@.len() ==> {
                    &&& (#[trigger] r@[i]).data is Some
                    &&& r@[i].data->0.packet_id == i
                    &&& r@[i].data->0.total_packets == r@.len()
                    &&& r@[i].data->0.data@ == packet_bytes(bytes@, i)
                },
            None => r@.len() == 1 && r@[0].data is None,
        },
{
    match text {
        Some(bytes) => clipboard_packets(bytes),
        None => {
            let mut v: Vec<PasteFromClipboardData> = Vec::new();
            v.push(PasteFromClipboardData { data: None });
            v
        },
    }
}

/// Concatenation of the data of the first `n` packets.
pub open spec fn joined_packets(packets: Seq<PasteFromClipboardData>, n: int) -> Seq<u8>
    decreases n,
{
    if n <= 0 {
        Seq::empty()
    } else {
        joined_packets(packets, n - 1) + packets[n - 1].data->0.data@
    }
}

proof fn lemma_joined_prefix(bytes: Seq<u8>, packets: Seq<PasteFromClipboardData>, k: int)
    requires
        0 <= k <= packets.len(),
        packets.len() == packet_count(bytes.len() as int),
        forall|i: int|
            0 <= i < packets.len() ==> (#[trigger] packets[i]).data is Some
                && packets[i].data->0.data@ == packet_bytes(bytes, i),
    ensures
        joined_packets(packets, k) == bytes.subrange(
            0,
            if k * MAX_CLIPBOARD_PACKET < bytes.len() {
                k * MAX_CLIPBOARD_PACKET
            } else {
                bytes.len() as int
            },
        ),
    decreases k,
{
    let n = packets.len() as int;
    let len = bytes.len() as int;
    if k == 0 {
        assert(bytes.subrange(0, 0) =~= Seq::<u8>::empty());
    } else {
        lemma_joined_prefix(bytes, packets, k - 1);
        assert((n - 1) * MAX_CLIPBOARD_PACKET < len || n == 0) by (nonlinear_arith)
            requires
                n == (len + 15360 - 1) / 15360,
                len >= 0,
        ;
        assert((k - 1) * MAX_CLIPBOARD_PACKET < len) by (nonlinear_arith)
            requires
                k - 1 < n,
                (n - 1) * MAX_CLIPBOARD_PACKET < len || n == 0,
                k - 1 >= 0,
        ;
        assert(k * MAX_CLIPBOARD_PACKET == (k - 1) * MAX_CLIPBOARD_PACKET + MAX_CLIPBOARD_PACKET)
            by (nonlinear_arith);
        assert(joined_packets(packets, k) =~= bytes.subrange(
            0,
            if k * MAX_CLIPBOARD_PACKET < len {
                k * MAX_CLIPBOARD_PACKET
            } else {
                len
            },
        ));
    }
}

/// Joining the data of all packets of a clipboard text gives the text back,
/// and no packet is larger than 15 KiB or empty.
pub proof fn law_clipboard_packets_reassemble(bytes: Seq<u8>, packets: Seq<PasteFromClipboardData>)
    requires
        packets.len() == packet_count(bytes.len() as int),
        forall|i: int|
            0 <= i < packets.len() ==> (#[trigger] packets[i]).data is Some
                && packets[i].data->0.data@ == packet_bytes(bytes, i),
    ensures
        joined_packets(packets, packets.len() as int) == bytes,
        forall|i: int|
            0 <= i < packets.len() ==> 0 < (#[trigger] packets[i]).data->0.data@.len()
                <= MAX_CLIPBOARD_PACKET,
{
    let n = packets.len() as int;
    let len = bytes.len() as int;
    assert(n * MAX_CLIPBOARD_PACKET >= len && (n - 1) * MAX_CLIPBOARD_PACKET < len || n == 0
        && len == 0) by (nonlinear_arith)
        requires
            n == (len + 15360 - 1) / 15360,
            len >= 0,
    ;
    lemma_joined_prefix(bytes, packets, n);
    assert(n * MAX_CLIPBOARD_PACKET >= len);
    assert(bytes.subrange(0, len) =~= bytes);
    assert forall|i: int| 0 <= i < packets.len() implies 0 < (#[trigger] packets[i]).data->0.data@.len()
        <= MAX_CLIPBOARD_PACKET by {
        assert(i * MAX_CLIPBOARD_PACKET < len) by (nonlinear_arith)
            requires
                i < n,
                (n - 1) * MAX_CLIPBOARD_PACKET < len || n == 0,
                i >= 0,
        ;
        assert((i + 1) * MAX_CLIPBOARD_PACKET == i * MAX_CLIPBOARD_PACKET + MAX_CLIPBOARD_PACKET)
            by (nonlinear_arith);
    }
}

/// Decodes bytes as UTF-8 (std's `str::from_utf8`); `None` where they are
/// not valid UTF-8.
#[verifier::external_body]
fn decode_utf8_text(bytes: &[u8]) -> (r: Option<String>)
    ensures
        r is Some <==> vstd::utf8::valid_utf8(bytes@),
        r matches Some(s) ==> s@ == vstd::utf8::decode_utf8(bytes@),
{
    std::str::from_utf8(bytes).ok().map(|s| s.to_string())
}

/// What a `participant_in_control` packet means for the local participant:
/// `Some(true)` when the SID it carries is the local one, `Some(false)` for
/// another SID, `None` (ignored) when the payload is not valid UTF-8.
pub fn local_in_control(payload: &[u8], user_sid: &str) -> (r: Option<bool>)
    ensures
        r is None <==> !vstd::utf8::valid_utf8(payload@),
        r matches Some(b) ==> b == (vstd::utf8::decode_utf8(payload@) == user_sid@),
{
    match decode_utf8_text(payload) {
        Some(text) => {
            let a = chars_of(text.as_str());
            let b = chars_of(user_sid);
            Some(chars_eq(a.as_slice(), b.as_slice()))
        },
        None => None,
    }
}

/// Whether a data packet was sent by the local participant itself (packets
/// without a sender count as sent by the empty SID).
pub fn is_own_event(sender_sid: Option<&str>, user_sid: &str) -> (r: bool)
    ensures
        r == (match sender_sid {
            Some(s) => s@ == user_sid@,
            None => user_sid@.len() == 0,
        }),
{
    let me = chars_of(user_sid);
    match sender_sid {
        Some(s) => {
            let other = chars_of(s);
            chars_eq(other.as_slice(), me.as_slice())
        },
        None => me.len() == 0,
    }
}

/// The local keystroke event for a remote keystroke: the first key, with the
/// modifier and press state carried over.
pub fn local_keystroke(data: &KeystrokeData) -> (r: crate::KeystrokeData)
    requires
        data.key@.len() > 0,
    ensures
        r.key == data.key@[0],
        r.meta == data.meta,
        r.ctrl == data.ctrl,
        r.shift == data.shift,
        r.alt == data.alt,
        r.down == data.down,
{
    crate::KeystrokeData {
        key: data.key[0].clone(),
        meta: data.meta,
        shift: data.shift,
        ctrl: data.ctrl,
        alt: data.alt,
        down: data.down,
    }
}

/// Whether a remote participant's pointer is shown on the overlay while it
/// is in `mode`: in every mode but `Disabled`.
pub fn shows_controller_pointer(mode: DrawingMode) -> (r: bool)
    ensures
        r == !(mode is Disabled),
{
    match mode {
        DrawingMode::Disabled => false,
        _ => true,
    }
}

/// The data messages the room service publishes to the room.
#[derive(Debug, Clone, Copy, PartialEq, Eq, Structural)]
pub enum DataMessage {
    CursorPosition,
    ControllerCursorEnabled,
    TickResponse,
    ParticipantInControl,
    DrawStart,
    DrawAddPoint,
    DrawEnd,
    DrawClearPath,
    DrawClearAllPaths,
    DrawingMode,
    MouseClick,
    MouseVisible,
    Keystroke,
    WheelEvent,
    AddToClipboard,
    PasteFromClipboard,
    ClickAnimation,
}

/// The topics data messages are published on.
#[derive(Debug, Clone, Copy, PartialEq, Eq, Structural)]
pub enum Topic {
    SharerLocation,
    RemoteControlEnabled,
    ParticipantInControl,
    TickResponse,
    Draw,
}

impl Topic {
    /// The name of the topic on the wire.
    pub open spec fn spec_name(self) -> Seq<char> {
        match self {
            Topic::SharerLocation => "sharer_location"@,
            Topic::RemoteControlEnabled => "remote_control_enabled"@,
            Topic::ParticipantInControl => "participant_in_control"@,
            Topic::TickResponse => "tick_response"@,
            Topic::Draw => "draw"@,
        }
    }

    /// The name of the topic on the wire.
    pub fn name(&self) -> (r: &'static str)
        ensures
            r@ == self.spec_name(),
    {
        match self {
            Topic::SharerLocation => TOPIC_SHARER_LOCATION,
            Topic::RemoteControlEnabled => TOPIC_REMOTE_CONTROL_ENABLED,
            Topic::ParticipantInControl => TOPIC_PARTICIPANT_IN_CONTROL,
            Topic::TickResponse => TOPIC_TICK_RESPONSE,
            Topic::Draw => TOPIC_DRAW,
        }
    }
}

/// How a data message is published: on which topic, if any, and whether
/// reliably.
#[derive(Debug, Clone, Copy, PartialEq, Eq, Structural)]
pub struct PublishPlan {
    pub topic: Option<Topic>,
    pub reliable: bool,
}

/// The topic and reliability of each data message: the sharer's location,
/// the remote control state, tick responses and the participant in control
/// each have their topic; drawing messages go on the draw topic; input and
/// clipboard messages go without a topic. Only the points added to a stroke
/// are sent unreliably.
pub open spec fn spec_publish_plan(m: DataMessage) -> PublishPlan {
    match m {
        DataMessage::CursorPosition => PublishPlan { topic: Some(Topic::SharerLocation), reliable: true },
        DataMessage::ControllerCursorEnabled => PublishPlan {
            topic: Some(Topic::RemoteControlEnabled),
            reliable: true,
        },
        DataMessage::TickResponse => PublishPlan { topic: Some(Topic::TickResponse), reliable: true },
        DataMessage::ParticipantInControl => PublishPlan {
            topic: Some(Topic::ParticipantInControl),
            reliable: true,
        },
        DataMessage::DrawAddPoint => PublishPlan { topic: Some(Topic::Draw), reliable: false },
        DataMessage::DrawStart | DataMessage::DrawEnd | DataMessage::DrawClearPath
        | DataMessage::DrawClearAllPaths | DataMessage::DrawingMode
        | DataMessage::ClickAnimation => PublishPlan { topic: Some(Topic::Draw), reliable: true },
        DataMessage::MouseClick | DataMessage::MouseVisible | DataMessage::Keystroke
        | DataMessage::WheelEvent | DataMessage::AddToClipboard
        | DataMessage::PasteFromClipboard => PublishPlan { topic: None, reliable: true },
    }
}

/// How a data message is published (see `spec_publish_plan`).
pub fn publish_plan(m: DataMessage) -> (r: PublishPlan)
    ensures
        r == spec_publish_plan(m),
{
    match m {
        DataMessage::CursorPosition => PublishPlan { topic: Some(Topic::SharerLocation), reliable: true },
        DataMessage::ControllerCursorEnabled => PublishPlan {
            topic: Some(Topic::RemoteControlEnabled),
            reliable: true,
        },
        DataMessage::TickResponse => PublishPlan { topic: Some(Topic::TickResponse), reliable: true },
        DataMessage::ParticipantInControl => PublishPlan {
            topic: Some(Topic::ParticipantInControl),
            reliable: true,
        },
        DataMessage::DrawAddPoint => PublishPlan { topic: Some(Topic::Draw), reliable: false },
        DataMessage::DrawStart | DataMessage::DrawEnd | DataMessage::DrawClearPath
        | DataMessage::DrawClearAllPaths | DataMessage::DrawingMode
        | DataMessage::ClickAnimation => PublishPlan { topic: Some(Topic::Draw), reliable: true },
        DataMessage::MouseClick | DataMessage::MouseVisible | DataMessage::Keystroke
        | DataMessage::WheelEvent | DataMessage::AddToClipboard
        | DataMessage::PasteFromClipboard => PublishPlan { topic: None, reliable: true },
    }
}

/// Clipboard text goes in as few 15 KiB packets as hold it: no packet for an
/// empty text, and otherwise every packet but the last is full (15360
/// bytes) and the last holds the rest, at least one byte.
pub proof fn law_clipboard_packets_are_full(len: int)
    requires
        len >= 0,
    ensures
        len == 0 ==> packet_count(len) == 0,
        len > 0 ==> packet_count(len) >= 1 && (packet_count(len) - 1) * 15360 < len <= packet_count(len)
            * 15360,
        forall|bytes: Seq<u8>, i: int|
            bytes.len() == len && 0 <= i < packet_count(len) - 1 ==> (#[trigger] packet_bytes(bytes, i)).len()
                == 15360,
{
    let n = packet_count(len);
    assert(n * 15360 >= len && (n - 1) * 15360 < len || n == 0 && len == 0) by (nonlinear_arith)
        requires
            n == (len + 15360 - 1) / 15360,
            len >= 0,
    ;
    assert forall|bytes: Seq<u8>, i: int|
        bytes.len() == len && 0 <= i < n - 1 implies (#[trigger] packet_bytes(bytes, i)).len() == 15360 by {
        assert((i + 1) * 15360 <= (n - 1) * 15360) by (nonlinear_arith)
            requires
                i + 1 <= n - 1,
        ;
        assert((i + 1) * 15360 == i * 15360 + 15360) by (nonlinear_arith);
        assert(0 <= i * 15360) by (nonlinear_arith)
            requires
                i >= 0,
        ;
    }
}

/// Every data message is published reliably except the points added to a
/// stroke, which may be lost.
pub proof fn law_only_stroke_points_are_lossy(m: DataMessage)
    ensures
        spec_publish_plan(m).reliable == !(m is DrawAddPoint),
{
}

/// The topics of the data messages: the sharer's location, the remote
/// control state, tick responses and the participant in control each have a
/// topic of their own that no other message uses; every drawing message
/// (strokes, clearing, the drawing mode, click animations) goes on the draw
/// topic; remote-control input and clipboard messages go without a topic.
pub proof fn law_message_topics(m: DataMessage)
    ensures
        (spec_publish_plan(m).topic == Some(Topic::SharerLocation)) == (m is CursorPosition),
        (spec_publish_plan(m).topic == Some(Topic::RemoteControlEnabled)) == (m is ControllerCursorEnabled),
        (spec_publish_plan(m).topic == Some(Topic::TickResponse)) == (m is TickResponse),
        (spec_publish_plan(m).topic == Some(Topic::ParticipantInControl)) == (m is ParticipantInControl),
        (spec_publish_plan(m).topic == Some(Topic::Draw)) == (m is DrawStart || m is DrawAddPoint
            || m is DrawEnd || m is DrawClearPath || m is DrawClearAllPaths || m is DrawingMode
            || m is ClickAnimation),
        (spec_publish_plan(m).topic is None) == (m is MouseClick || m is MouseVisible || m is Keystroke
            || m is WheelEvent || m is AddToClipboard || m is PasteFromClipboard),
{
}

/// The topics have distinct names on the wire.
pub proof fn law_topic_names_distinct(a: Topic, b: Topic)
    ensures
        a != b ==> a.spec_name() != b.spec_name(),
{
    reveal_strlit("sharer_location");
    reveal_strlit("remote_control_enabled");
    reveal_strlit("participant_in_control");
    reveal_strlit("tick_response");
    reveal_strlit("draw");
    if a != b {
        let x = a.spec_name();
        let y = b.spec_name();
        if x.len() == y.len() {
            assert(x[0] != y[0] || x[1] != y[1]);
        }
    }
}

} // verus!
