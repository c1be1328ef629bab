//! The wire format of the local video client: each frame of a remote video
//! track goes to the web view over a websocket as one header packet and a
//! fixed number of data packets, all little-endian.
//!
//! Header: `H`, width (2), height (2), capture timestamp in ms (8), frame id
//! (4), number of data packets (1), then three optional controls: remote
//! control enabled (flag, value), custom cursor shown (flag, value), and a
//! participant's location (flag, x bits (8), y bits (8), sid length (4), sid).
//!
//! Data: `D`, frame id (4), packet index (2), payload length (4), payload.

use crate::room_service::RemoteControlEnabled;
use vstd::prelude::*;
use vstd::string::StringExecFns;
use vstd::utf8::encode_utf8;

verus! {

/// Errors of the local video client's setup.
#[derive(Debug, Clone, Copy, PartialEq, Eq, Structural)]
pub enum VideoClientError {
    FailedToCreateListener,
    FailedToAcceptConnection,
    WaitingForConnectionTimeout,
    FailedToSetNodelay,
    FailedToAcceptWebSocket,
}

impl VideoClientError {
    /// The text of the error.
    pub open spec fn spec_message(&self) -> Seq<char> {
        match self {
            VideoClientError::FailedToCreateListener => "Failed to create listener"@,
            VideoClientError::FailedToAcceptConnection => "Failed to accept connection"@,
            VideoClientError::WaitingForConnectionTimeout => "Waiting for connection timeout"@,
            VideoClientError::FailedToSetNodelay => "Failed to set socket to nodelay"@,
            VideoClientError::FailedToAcceptWebSocket => "Failed to accept websocket"@,
        }
    }

    /// The text of the error.
    pub fn message(&self) -> (r: String)
        ensures
            r@ == self.spec_message(),
    {
        match self {
            VideoClientError::FailedToCreateListener => String::from_str("Failed to create listener"),
            VideoClientError::FailedToAcceptConnection => String::from_str(
                "Failed to accept connection",
            ),
            VideoClientError::WaitingForConnectionTimeout => String::from_str(
                "Waiting for connection timeout",
            ),
            VideoClientError::FailedToSetNodelay => String::from_str(
                "Failed to set socket to nodelay",
            ),
            VideoClientError::FailedToAcceptWebSocket => String::from_str(
                "Failed to accept websocket",
            ),
        }
    }
}

/// The first local port the video client tries to listen on.
pub const FIRST_LISTENER_PORT: u16 = 50000;

/// How many consecutive ports the video client tries.
pub const LISTENER_PORT_ATTEMPTS: u16 = 100;

/// The ports the video client tries to listen on, in order.
pub fn listener_ports() -> (r: Vec<u16>)
    ensures
        r@.len() == LISTENER_PORT_ATTEMPTS,
        forall|i: int| 0 <= i < r@.len() ==> r@[i] == FIRST_LISTENER_PORT + i,
{
    let mut out: Vec<u16> = Vec::new();
    let mut i: u16 = 0;
    while i < LISTENER_PORT_ATTEMPTS
        invariant
            i <= LISTENER_PORT_ATTEMPTS,
            out@.len() == i,
            forall|k: int| 0 <= k < i ==> out@[k] == FIRST_LISTENER_PORT + k,
        decreases LISTENER_PORT_ATTEMPTS - i,
    {
        out.push(FIRST_LISTENER_PORT + i);
        i += 1;
    }
    out
}

/// Number of data packets each frame is split into.
pub const FRAME_DATA_PACKETS: u8 = 4;

/// The `n` low bytes of `v`, least significant first.
pub open spec fn le_bytes(v: nat, n: nat) -> Seq<u8>
    decreases n,
{
    if n == 0 {
        Seq::empty()
    } else {
        seq![(v % 256) as u8] + le_bytes(v / 256, (n - 1) as nat)
    }
}

/// Appends the `n` low bytes of `v`, least significant first.
fn push_le(out: &mut Vec<u8>, v: u64, n: u8)
    ensures
        final(out)@ == old(out)@ + le_bytes(v as nat, n as nat),
    decreases n,
{
    if n > 0 {
        let ghost before = out@;
        out.push((v % 256) as u8);
        push_le(out, v / 256, n - 1);
        assert(out@ =~= before + le_bytes(v as nat, n as nat));
    } else {
        assert(out@ =~= old(out)@ + le_bytes(v as nat, n as nat));
    }
}

/// Appends all of `bytes`.
fn push_all(out: &mut Vec<u8>, bytes: &[u8])
    ensures
        final(out)@ == old(out)@ + bytes@,
{
    let ghost before = out@;
    let mut i: usize = 0;
    while i < bytes.len()
        invariant
            i <= bytes@.len(),
            out@ == before + bytes@.take(i as int),
        decreases bytes@.len() - i,
    {
        out.push(bytes[i]);
        i += 1;
        assert(out@ =~= before + bytes@.take(i as int));
    }
    assert(bytes@.take(bytes@.len() as int) =~= bytes@);
}

/// Where a remote participant points on the shared screen; the coordinates
/// are the bit patterns of the `f64` fractions sent on.
#[derive(Debug)]
pub struct ParticipantLocation {
    pub x_bits: u64,
    pub y_bits: u64,
    pub sid: String,
}

/// A control event for the web view, sent along with the next frame.
#[derive(Debug)]
pub enum FrameControl {
    RemoteControlEnabled(RemoteControlEnabled),
    ShowCustomCursor(bool),
    ParticipantLocation(ParticipantLocation),
}

/// The controls sent with one frame: the latest event of each kind since
/// the previous frame.
#[derive(Debug)]
pub struct FrameControls {
    pub remote_control_enabled: Option<bool>,
    pub show_custom_cursor: Option<bool>,
    pub participant_location: Option<ParticipantLocation>,
}

/// A location as plain values.
pub open spec fn location_view(l: ParticipantLocation) -> (u64, u64, Seq<char>) {
    (l.x_bits, l.y_bits, l.sid@)
}

/// The controls as plain values: remote control, custom cursor, location.
pub open spec fn controls_view(c: FrameControls) -> (Option<bool>, Option<bool>, Option<
    (u64, u64, Seq<char>),
>) {
    (
        c.remote_control_enabled,
        c.show_custom_cursor,
        match c.participant_location {
            Some(l) => Some(location_view(l)),
            None => None,
        },
    )
}

/// The latest event of each kind among `events`.
pub open spec fn spec_latest_controls(events: Seq<FrameControl>) -> (Option<bool>, Option<bool>, Option<
    (u64, u64, Seq<char>),
>)
    decreases events.len(),
{
    if events.len() == 0 {
        (None, None, None)
    } else {
        let before = spec_latest_controls(events.drop_last());
        match events.last() {
            FrameControl::RemoteControlEnabled(e) => (Some(e.enabled), before.1, before.2),
            FrameControl::ShowCustomCursor(b) => (before.0, Some(b), before.2),
            FrameControl::ParticipantLocation(l) => (before.0, before.1, Some(location_view(l))),
        }
    }
}

/// Keeps the latest event of each kind among those that arrived since the
/// previous frame.
pub fn latest_controls(events: &[FrameControl]) -> (r: FrameControls)
    ensures
        controls_view(r) == spec_latest_controls(events@),
{
    let mut out = FrameControls {
        remote_control_enabled: None,
        show_custom_cursor: None,
        participant_location: None,
    };
    let mut i: usize = 0;
    while i < events.len()
        invariant
            i <= events@.len(),
            controls_view(out) == spec_latest_controls(events@.take(i as int)),
        decreases events@.len() - i,
    {
        proof {
            assert(events@.take(i + 1).drop_last() =~= events@.take(i as int));
        }
        match &events[i] {
            FrameControl::RemoteControlEnabled(e) => {
                out.remote_control_enabled = Some(e.enabled);
            },
            FrameControl::ShowCustomCursor(b) => {
                out.show_custom_cursor = Some(*b);
            },
            FrameControl::ParticipantLocation(l) => {
                out.participant_location = Some(
                    ParticipantLocation { x_bits: l.x_bits, y_bits: l.y_bits, sid: l.sid.clone() },
                );
            },
        }
        i += 1;
    }
    assert(events@.take(events@.len() as int) =~= events@);
    out
}

/// An optional flag as a presence byte and a value byte.
pub open spec fn flag_bytes(v: Option<bool>) -> Seq<u8> {
    match v {
        Some(b) => seq![1u8, if b { 1u8 } else { 0u8 }],
        None => seq![0u8, 0u8],
    }
}

/// The location part of the header; a location with an empty sid is sent
/// as absent.
pub open spec fn location_bytes(l: Option<(u64, u64, Seq<char>)>) -> Seq<u8> {
    match l {
        Some((x, y, sid)) if sid.len() > 0 => seq![1u8] + le_bytes(x as nat, 8) + le_bytes(
            y as nat,
            8,
        ) + le_bytes((encode_utf8(sid).len() as u32) as nat, 4) + encode_utf8(sid),
        _ => seq![0u8, 0u8, 0u8] + le_bytes(0, 4),
    }
}

/// The header packet of a frame. Width and height are sent as their low 16
/// bits.
pub open spec fn spec_frame_header(
    width: u32,
    height: u32,
    capture_ts: u64,
    frame_id: u32,
    controls: (Option<bool>, Option<bool>, Option<(u64, u64, Seq<char>)>),
) -> Seq<u8> {
    seq!['H' as u8] + le_bytes((width as u16) as nat, 2) + le_bytes((height as u16) as nat, 2)
        + le_bytes(capture_ts as nat, 8) + le_bytes(frame_id as nat, 4) + le_bytes(
        FRAME_DATA_PACKETS as nat,
        1,
    ) + flag_bytes(controls.0) + flag_bytes(controls.1) + location_bytes(controls.2)
}

/// Builds the header packet of a frame.
pub fn encode_frame_header(
    width: u32,
    height: u32,
    capture_ts: u64,
    frame_id: u32,
    controls: &FrameControls,
) -> (r: Vec<u8>)
    ensures
        r@ == spec_frame_header(width, height, capture_ts, frame_id, controls_view(*controls)),
{
    let mut h: Vec<u8> = vec![72u8];
    assert(h@ =~= seq!['H' as u8]);
    push_le(&mut h, (width as u16) as u64, 2);
    push_le(&mut h, (height as u16) as u64, 2);
    push_le(&mut h, capture_ts, 8);
    push_le(&mut h, frame_id as u64, 4);
    push_le(&mut h, FRAME_DATA_PACKETS as u64, 1);
    push_flag(&mut h, controls.remote_control_enabled);
    push_flag(&mut h, controls.show_custom_cursor);
    push_location(&mut h, &controls.participant_location);
    h
}

/// Appends an optional flag.
fn push_flag(out: &mut Vec<u8>, v: Option<bool>)
    ensures
        final(out)@ == old(out)@ + flag_bytes(v),
{
    match v {
        Some(b) => {
            out.push(1u8);
            out.push(if b { 1u8 } else { 0u8 });
        },
        None => {
            out.push(0u8);
            out.push(0u8);
        },
    }
    assert(out@ =~= old(out)@ + flag_bytes(v));
}

/// Appends the location part of the header.
fn push_location(out: &mut Vec<u8>, l: &Option<ParticipantLocation>)
    ensures
        final(out)@ == old(out)@ + location_bytes(
            match *l {
                Some(l) => Some(location_view(l)),
                None => None,
            },
        ),
{
    let ghost before = out@;
    if let Some(l) = l {
        let sid = l.sid.as_str().as_bytes();
        if sid.len() > 0 {
            out.push(1u8);
            push_le(out, l.x_bits, 8);
            push_le(out, l.y_bits, 8);
            push_le(out, (sid.len() as u32) as u64, 4);
            push_all(out, sid);
            assert(out@ =~= before + (seq![1u8] + le_bytes(l.x_bits as nat, 8) + le_bytes(
                l.y_bits as nat,
                8,
            ) + le_bytes((encode_utf8(l.sid@).len() as u32) as nat, 4) + encode_utf8(l.sid@)));
            return ;
        }
        proof {
            if l.sid@.len() > 0 {
                vstd::utf8::encode_utf8_first_scalar(l.sid@);
            }
        }
    }
    out.push(0u8);
    out.push(0u8);
    out.push(0u8);
    push_le(out, 0u64, 4);
    assert(out@ =~= before + (seq![0u8, 0u8, 0u8] + le_bytes(0, 4)));
}

/// The three planes of a frame as one byte sequence.
pub open spec fn frame_bytes(y: Seq<u8>, u: Seq<u8>, v: Seq<u8>) -> Seq<u8> {
    y + u + v
}

/// The payload length of every data packet of a frame: a quarter of the
/// frame, rounded down (the remainder is not sent).
pub open spec fn data_packet_len(y: Seq<u8>, u: Seq<u8>, v: Seq<u8>) -> int {
    (y.len() + u.len() + v.len()) as int / FRAME_DATA_PACKETS as int
}

/// The data packet `k` of a frame.
pub open spec fn spec_data_packet(frame_id: u32, k: int, y: Seq<u8>, u: Seq<u8>, v: Seq<u8>) -> Seq<
    u8,
> {
    let len = data_packet_len(y, u, v);
    seq!['D' as u8] + le_bytes(frame_id as nat, 4) + le_bytes(k as nat, 2) + le_bytes(
        (len as u32) as nat,
        4,
    ) + frame_bytes(y, u, v).subrange(k * len, (k + 1) * len)
}

/// Byte `g` of the three planes taken as one sequence.
fn plane_byte(y: &[u8], u: &[u8], v: &[u8], g: usize) -> (r: u8)
    requires
        g < y@.len() + u@.len() + v@.len(),
    ensures
        r == frame_bytes(y@, u@, v@)[g as int],
{
    if g < y.len() {
        y[g]
    } else if g - y.len() < u.len() {
        u[g - y.len()]
    } else {
        v[g - y.len() - u.len()]
    }
}

/// Splits a frame's planes into its data packets.
pub fn frame_data_packets(y: &[u8], u: &[u8], v: &[u8], frame_id: u32) -> (r: Vec<Vec<u8>>)
    requires
        y@.len() + u@.len() + v@.len() <= usize::MAX,
    ensures
        r@.len() == FRAME_DATA_PACKETS,
        forall|k: int|
            0 <= k < FRAME_DATA_PACKETS ==> (#[trigger] r@[k])@ == spec_data_packet(
                frame_id,
                k,
                y@,
                u@,
                v@,
            ),
{
    let total = y.len() + u.len() + v.len();
    let len = total / (FRAME_DATA_PACKETS as usize);
    assert(len == data_packet_len(y@, u@, v@));
    let mut packets: Vec<Vec<u8>> = Vec::new();
    let mut k: u8 = 0;
    while k < FRAME_DATA_PACKETS
        invariant
            k <= FRAME_DATA_PACKETS,
            total == y@.len() + u@.len() + v@.len(),
            len == data_packet_len(y@, u@, v@),
            packets@.len() == k,
            forall|j: int|
                0 <= j < k ==> (#[trigger] packets@[j])@ == spec_data_packet(
                    frame_id,
                    j,
                    y@,
                    u@,
                    v@,
                ),
        decreases FRAME_DATA_PACKETS - k,
    {
        let mut p: Vec<u8> = Vec::new();
        p.push(68u8);
        push_le(&mut p, frame_id as u64, 4);
        push_le(&mut p, k as u64, 2);
        push_le(&mut p, (len as u32) as u64, 4);
        let ghost head = p@;
        assert(len * k + len <= total) by (nonlinear_arith)
            requires
                len == total / 4,
                k < 4,
        ;
        let start = len * (k as usize);
        let end = start + len;
        let mut g = start;
        while g < end
            invariant
                start <= g <= end <= total,
                total == y@.len() + u@.len() + v@.len(),
                p@ == head + frame_bytes(y@, u@, v@).subrange(start as int, g as int),
            decreases end - g,
        {
            let b = plane_byte(y, u, v, g);
            p.push(b);
            g += 1;
            assert(p@ =~= head + frame_bytes(y@, u@, v@).subrange(start as int, g as int));
        }
        proof {
            assert('D' as u8 == 68u8);
            assert(start == k * len && end == (k + 1) * len) by (nonlinear_arith)
                requires
                    start == len * k,
                    end == start + len,
            ;
            assert(p@ =~= spec_data_packet(frame_id, k as int, y@, u@, v@));
        }
        packets.push(p);
        k += 1;
    }
    packets
}

/// The payload of a data packet: what follows its 11 header bytes.
pub open spec fn packet_payload(p: Seq<u8>) -> Seq<u8> {
    p.subrange(11, p.len() as int)
}

proof fn lemma_le_bytes_len(v: nat, n: nat)
    ensures
        le_bytes(v, n).len() == n,
    decreases n,
{
    if n > 0 {
        lemma_le_bytes_len(v / 256, (n - 1) as nat);
    }
}

/// The data packets carry the frame in order: their payloads, one after the
/// other, are the frame's bytes but for the last few (fewer than one per
/// packet) that do not fill a whole share.
pub proof fn law_packets_carry_frame(y: Seq<u8>, u: Seq<u8>, v: Seq<u8>, frame_id: u32)
    ensures
        ({
            let len = data_packet_len(y, u, v);
            let all = frame_bytes(y, u, v);
            &&& packet_payload(spec_data_packet(frame_id, 0, y, u, v)) + packet_payload(
                spec_data_packet(frame_id, 1, y, u, v),
            ) + packet_payload(spec_data_packet(frame_id, 2, y, u, v)) + packet_payload(
                spec_data_packet(frame_id, 3, y, u, v),
            ) == all.take(4 * len)
            &&& 0 <= all.len() - 4 * len < 4
        }),
{
    let len = data_packet_len(y, u, v);
    let all = frame_bytes(y, u, v);
    lemma_le_bytes_len(frame_id as nat, 4);
    assert forall|k: int| 0 <= k < 4 implies packet_payload(spec_data_packet(frame_id, k, y, u, v))
        == all.subrange(k * len, (k + 1) * len) by {
        lemma_le_bytes_len(k as nat, 2);
        lemma_le_bytes_len((len as u32) as nat, 4);
        assert(0 <= k * len <= (k + 1) * len <= all.len()) by (nonlinear_arith)
            requires
                0 <= k < 4,
                len == all.len() as int / 4,
                all.len() >= 0,
        ;
        assert(packet_payload(spec_data_packet(frame_id, k, y, u, v)) =~= all.subrange(
            k * len,
            (k + 1) * len,
        ));
    }
    assert(0 <= all.len() - 4 * len < 4) by (nonlinear_arith)
        requires
            len == all.len() as int / 4,
    ;
    assert(all.subrange(0, len) + all.subrange(len, 2 * len) + all.subrange(2 * len, 3 * len)
        + all.subrange(3 * len, 4 * len) =~= all.take(4 * len));
}

/// The controls sent with a frame are, for each kind, the value of the last
/// event of that kind among those that arrived, and absent when none of that
/// kind arrived.
pub proof fn law_latest_event_wins(events: Seq<FrameControl>)
    ensures
        spec_latest_controls(events).0 is None <==> forall|k: int|
            0 <= k < events.len() ==> !(#[trigger] events[k] is RemoteControlEnabled),
        spec_latest_controls(events).1 is None <==> forall|k: int|
            0 <= k < events.len() ==> !(#[trigger] events[k] is ShowCustomCursor),
        spec_latest_controls(events).2 is None <==> forall|k: int|
            0 <= k < events.len() ==> !(#[trigger] events[k] is ParticipantLocation),
        forall|k: int|
            0 <= k < events.len() && (#[trigger] events[k] is RemoteControlEnabled) && (forall|m: int|
                k < m < events.len() ==> !(#[trigger] events[m] is RemoteControlEnabled))
                ==> spec_latest_controls(events).0 == Some(events[k]->RemoteControlEnabled_0.enabled),
        forall|k: int|
            0 <= k < events.len() && (#[trigger] events[k] is ShowCustomCursor) && (forall|m: int|
                k < m < events.len() ==> !(#[trigger] events[m] is ShowCustomCursor))
                ==> spec_latest_controls(events).1 == Some(events[k]->ShowCustomCursor_0),
        forall|k: int|
            0 <= k < events.len() && (#[trigger] events[k] is ParticipantLocation) && (forall|m: int|
                k < m < events.len() ==> !(#[trigger] events[m] is ParticipantLocation))
                ==> spec_latest_controls(events).2 == Some(location_view(events[k]->ParticipantLocation_0)),
    decreases events.len(),
{
    if events.len() > 0 {
        let p = events.drop_last();
        let n = events.len() - 1;
        law_latest_event_wins(p);
        assert forall|k: int| 0 <= k < n implies #[trigger] events[k] == p[k] by {}
        assert(events[n] == events.last());
    }
}

/// The number a run of bytes stands for, least significant byte first.
pub open spec fn le_value(b: Seq<u8>) -> nat
    decreases b.len(),
{
    if b.len() == 0 {
        0
    } else {
        b[0] as nat + 256 * le_value(b.drop_first())
    }
}

/// `256` to the power `n`.
pub open spec fn byte_power(n: nat) -> nat
    decreases n,
{
    if n == 0 {
        1
    } else {
        256 * byte_power((n - 1) as nat)
    }
}

proof fn lemma_le_roundtrip(v: nat, n: nat)
    requires
        v < byte_power(n),
    ensures
        le_bytes(v, n).len() == n,
        le_value(le_bytes(v, n)) == v,
    decreases n,
{
    if n > 0 {
        assert(v / 256 < byte_power((n - 1) as nat)) by (nonlinear_arith)
            requires
                v < 256 * byte_power((n - 1) as nat),
        ;
        lemma_le_roundtrip(v / 256, (n - 1) as nat);
        let b = le_bytes(v, n);
        assert(b.drop_first() =~= le_bytes(v / 256, (n - 1) as nat));
        assert(v == v % 256 + 256 * (v / 256)) by (nonlinear_arith);
    }
}

/// The header of a frame reads back as what was given: it starts with `H`,
/// then the width and height (their low 16 bits), the capture time and the
/// frame id, each least significant byte first, then the number of data
/// packets, 4.
pub proof fn law_header_fields(
    width: u32,
    height: u32,
    capture_ts: u64,
    frame_id: u32,
    controls: (Option<bool>, Option<bool>, Option<(u64, u64, Seq<char>)>),
)
    ensures
        ({
            let h = spec_frame_header(width, height, capture_ts, frame_id, controls);
            &&& h.len() > 18
            &&& h[0] == 72
            &&& le_value(h.subrange(1, 3)) == width % 65536
            &&& le_value(h.subrange(3, 5)) == height % 65536
            &&& le_value(h.subrange(5, 13)) == capture_ts
            &&& le_value(h.subrange(13, 17)) == frame_id
            &&& h[17] == 4
        }),
{
    let w = (width as u16) as nat;
    let ht = (height as u16) as nat;
    assert((width as u16) as u32 == width % 65536) by (bit_vector);
    assert((height as u16) as u32 == height % 65536) by (bit_vector);
    reveal_with_fuel(byte_power, 9);
    lemma_le_roundtrip(w, 2);
    lemma_le_roundtrip(ht, 2);
    lemma_le_roundtrip(capture_ts as nat, 8);
    lemma_le_roundtrip(frame_id as nat, 4);
    lemma_le_roundtrip(4, 1);
    let a = seq!['H' as u8];
    let bw = le_bytes(w, 2);
    let bh = le_bytes(ht, 2);
    let bt = le_bytes(capture_ts as nat, 8);
    let bf = le_bytes(frame_id as nat, 4);
    let bp = le_bytes(4, 1);
    let h = spec_frame_header(width, height, capture_ts, frame_id, controls);
    let rest = flag_bytes(controls.0) + flag_bytes(controls.1) + location_bytes(controls.2);
    assert(h == a + bw + bh + bt + bf + bp + rest);
    assert(h.subrange(1, 3) =~= bw);
    assert(h.subrange(3, 5) =~= bh);
    assert(h.subrange(5, 13) =~= bt);
    assert(h.subrange(13, 17) =~= bf);
    assert(h[17] == bp[0]);
    assert(bp[0] == 4);
    assert(rest.len() >= 4);
}

} // verus!
