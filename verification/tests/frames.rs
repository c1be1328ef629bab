use hopp_core::video::{video_stream_step, StreamAction, StreamWake};
use hopp_core::video::{align_to, I420Planes, VideoBuffer, VideoBufferManager};
use hopp_core::video_client::{
    encode_frame_header, frame_data_packets, latest_controls, listener_ports, FrameControl,
    FrameControls, ParticipantLocation, VideoClientError,
};
use hopp_core::room_service::RemoteControlEnabled;

#[test]
fn align_to_rounds_up_to_the_alignment() {
    assert_eq!(align_to(0, 256), 0);
    assert_eq!(align_to(1, 256), 256);
    assert_eq!(align_to(100, 256), 256);
    assert_eq!(align_to(256, 256), 256);
    assert_eq!(align_to(257, 256), 512);
    assert_eq!(align_to(1920, 256), 2048);
    assert_eq!(align_to(4_294_967_040, 256), 4_294_967_040);
    assert_eq!(align_to(4_294_967_000, 256), 4_294_967_040);
}

fn planes(y: Vec<u8>, u: Vec<u8>, v: Vec<u8>, sy: u32, su: u32) -> I420Planes {
    I420Planes { stride_y: sy, stride_u: su, stride_v: su, data_y: y, data_u: u, data_v: v }
}

#[test]
fn copy_from_i420_pads_rows_to_gpu_strides() {
    let mut buf = VideoBuffer::default();
    let frame = planes((0..8).collect(), vec![10, 11], vec![20, 21], 4, 2);
    buf.copy_from_i420(&frame, 4, 2);
    assert_eq!((buf.width, buf.height), (4, 2));
    assert_eq!((buf.stride_y, buf.stride_u, buf.stride_v), (256, 256, 256));
    assert_eq!(buf.y.len(), 512);
    assert_eq!(buf.u.len(), 256);
    assert_eq!(buf.v.len(), 256);
    assert_eq!(&buf.y[0..4], &[0, 1, 2, 3]);
    assert_eq!(&buf.y[256..260], &[4, 5, 6, 7]);
    assert_eq!(buf.y[4], 0);
    assert_eq!(buf.y[511], 0);
    assert_eq!(&buf.u[0..3], &[10, 11, 128]);
    assert_eq!(&buf.v[0..3], &[20, 21, 128]);
    assert_eq!(buf.frame_id, 0);
}

#[test]
fn copy_from_i420_keeps_padding_when_size_is_unchanged() {
    let mut buf = VideoBuffer::default();
    buf.copy_from_i420(&planes(vec![1; 8], vec![2, 2], vec![3, 3], 4, 2), 4, 2);
    buf.y[10] = 99;
    buf.copy_from_i420(&planes(vec![7; 8], vec![8, 8], vec![9, 9], 4, 2), 4, 2);
    assert_eq!(&buf.y[0..4], &[7, 7, 7, 7]);
    assert_eq!(buf.y[10], 99);
    assert_eq!(&buf.u[0..2], &[8, 8]);
}

#[test]
fn copy_from_i420_reads_source_rows_by_their_stride() {
    let mut buf = VideoBuffer::default();
    // Source luma rows are 6 bytes apart, only 4 of them are pixels.
    let y = vec![1, 2, 3, 4, 0, 0, 5, 6, 7, 8, 0, 0];
    buf.copy_from_i420(&planes(y, vec![1, 2, 0, 0], vec![3, 4, 0, 0], 6, 4), 4, 2);
    assert_eq!(&buf.y[256..260], &[5, 6, 7, 8]);
    assert_eq!(&buf.u[0..2], &[1, 2]);
}

#[test]
fn written_frame_becomes_latest_after_advance() {
    let mut m = VideoBufferManager::new();
    assert!(m.is_inactive());
    m.write_buffer().frame_id = 7;
    assert!(!m.is_inactive());
    m.advance_write();
    assert_eq!(m.latest_frame().frame_id, 7);
    // Writing the next frame does not change what readers see until advanced.
    m.write_buffer().frame_id = 8;
    assert_eq!(m.latest_frame().frame_id, 7);
    m.advance_write();
    assert_eq!(m.latest_frame().frame_id, 8);
    m.set_inactive(true);
    assert!(m.is_inactive());
    assert_eq!(m.latest_frame().frame_id, 8);
}

#[test]
fn listener_ports_are_consecutive() {
    let ports = listener_ports();
    assert_eq!(ports.len(), 100);
    assert_eq!(ports[0], 50000);
    assert_eq!(ports[99], 50099);
}

#[test]
fn video_client_error_texts() {
    assert_eq!(VideoClientError::FailedToCreateListener.message(), "Failed to create listener");
    assert_eq!(VideoClientError::FailedToAcceptConnection.message(), "Failed to accept connection");
    assert_eq!(
        VideoClientError::WaitingForConnectionTimeout.message(),
        "Waiting for connection timeout"
    );
    assert_eq!(VideoClientError::FailedToSetNodelay.message(), "Failed to set socket to nodelay");
    assert_eq!(VideoClientError::FailedToAcceptWebSocket.message(), "Failed to accept websocket");
}

fn no_controls() -> FrameControls {
    FrameControls { remote_control_enabled: None, show_custom_cursor: None, participant_location: None }
}

#[test]
fn frame_header_without_controls() {
    let h = encode_frame_header(1920, 1080, 1, 2, &no_controls());
    let mut expected = vec![b'H'];
    expected.extend_from_slice(&1920u16.to_le_bytes());
    expected.extend_from_slice(&1080u16.to_le_bytes());
    expected.extend_from_slice(&1u64.to_le_bytes());
    expected.extend_from_slice(&2u32.to_le_bytes());
    expected.push(4);
    expected.extend_from_slice(&[0, 0, 0, 0, 0, 0, 0]);
    expected.extend_from_slice(&0u32.to_le_bytes());
    assert_eq!(h, expected);
    assert_eq!(h.len(), 29);
}

#[test]
fn frame_header_with_all_controls() {
    let controls = FrameControls {
        remote_control_enabled: Some(true),
        show_custom_cursor: Some(false),
        participant_location: Some(ParticipantLocation {
            x_bits: 0.25f64.to_bits(),
            y_bits: 0.75f64.to_bits(),
            sid: "PA_é".to_string(),
        }),
    };
    let h = encode_frame_header(70000, 720, 1_700_000_000_123, 99, &controls);
    let mut expected = vec![b'H'];
    expected.extend_from_slice(&(70000u32 as u16).to_le_bytes());
    expected.extend_from_slice(&720u16.to_le_bytes());
    expected.extend_from_slice(&1_700_000_000_123u64.to_le_bytes());
    expected.extend_from_slice(&99u32.to_le_bytes());
    expected.push(4);
    expected.extend_from_slice(&[1, 1, 1, 0, 1]);
    expected.extend_from_slice(&0.25f64.to_le_bytes());
    expected.extend_from_slice(&0.75f64.to_le_bytes());
    expected.extend_from_slice(&5u32.to_le_bytes());
    expected.extend_from_slice("PA_é".as_bytes());
    assert_eq!(h, expected);
}

#[test]
fn frame_header_location_with_empty_sid_is_absent() {
    let controls = FrameControls {
        remote_control_enabled: None,
        show_custom_cursor: None,
        participant_location: Some(ParticipantLocation { x_bits: 1, y_bits: 2, sid: String::new() }),
    };
    let h = encode_frame_header(10, 10, 0, 0, &controls);
    assert_eq!(h, encode_frame_header(10, 10, 0, 0, &no_controls()));
}

#[test]
fn latest_controls_keeps_the_last_of_each_kind() {
    let events = vec![
        FrameControl::RemoteControlEnabled(RemoteControlEnabled { enabled: true }),
        FrameControl::ShowCustomCursor(true),
        FrameControl::ParticipantLocation(ParticipantLocation { x_bits: 1, y_bits: 2, sid: "a".to_string() }),
        FrameControl::RemoteControlEnabled(RemoteControlEnabled { enabled: false }),
        FrameControl::ParticipantLocation(ParticipantLocation { x_bits: 3, y_bits: 4, sid: "b".to_string() }),
    ];
    let c = latest_controls(&events);
    assert_eq!(c.remote_control_enabled, Some(false));
    assert_eq!(c.show_custom_cursor, Some(true));
    let l = c.participant_location.unwrap();
    assert_eq!((l.x_bits, l.y_bits, l.sid.as_str()), (3, 4, "b"));
    let none = latest_controls(&[]);
    assert!(none.remote_control_enabled.is_none());
    assert!(none.show_custom_cursor.is_none());
    assert!(none.participant_location.is_none());
}

#[test]
fn data_packets_split_the_frame_in_four() {
    let y: Vec<u8> = (1..=6).collect();
    let packets = frame_data_packets(&y, &[7, 8], &[9], 5);
    assert_eq!(packets.len(), 4);
    let payloads: Vec<Vec<u8>> = vec![vec![1, 2], vec![3, 4], vec![5, 6], vec![7, 8]];
    for (k, p) in packets.iter().enumerate() {
        let mut expected = vec![b'D'];
        expected.extend_from_slice(&5u32.to_le_bytes());
        expected.extend_from_slice(&(k as u16).to_le_bytes());
        expected.extend_from_slice(&2u32.to_le_bytes());
        expected.extend_from_slice(&payloads[k]);
        assert_eq!(p, &expected);
    }
    // The payloads together are the frame but for the remainder (byte 9).
    let joined: Vec<u8> = packets.iter().flat_map(|p| p[11..].to_vec()).collect();
    assert_eq!(joined, (1..=8).collect::<Vec<u8>>());
}

#[test]
fn data_packets_of_a_tiny_frame_are_empty() {
    let packets = frame_data_packets(&[1, 2], &[], &[3], 0);
    assert_eq!(packets.len(), 4);
    for p in &packets {
        assert_eq!(p.len(), 11);
        assert_eq!(&p[7..11], &0u32.to_le_bytes());
    }
}

#[test]
fn video_stream_steps_number_frames() {
    assert_eq!(video_stream_step(0, StreamWake::Frame { skipped: 0 }), (StreamAction::Store { frame_id: 0 }, 1));
    assert_eq!(video_stream_step(1, StreamWake::Frame { skipped: 3 }), (StreamAction::Store { frame_id: 1 }, 5));
    assert_eq!(video_stream_step(5, StreamWake::TimedOut), (StreamAction::MarkInactive, 5));
    assert_eq!(video_stream_step(5, StreamWake::Ended), (StreamAction::Finish, 5));
    assert_eq!(video_stream_step(5, StreamWake::Stopped), (StreamAction::Finish, 5));
}

#[test]
fn new_manager_slots_are_empty() {
    let m = VideoBufferManager::new();
    let b = m.latest_frame();
    assert_eq!((b.width, b.height, b.stride_y, b.stride_u, b.stride_v, b.frame_id), (0, 0, 0, 0, 0, 0));
    assert!(b.y.is_empty() && b.u.is_empty() && b.v.is_empty());
}

#[test]
fn a_run_of_stream_steps_numbers_frames_increasingly() {
    let wakes = [
        StreamWake::Frame { skipped: 0 },
        StreamWake::TimedOut,
        StreamWake::Frame { skipped: 2 },
        StreamWake::Frame { skipped: 0 },
        StreamWake::Frame { skipped: 1 },
    ];
    let mut counter = 0u64;
    let mut ids = Vec::new();
    for wake in wakes {
        let (action, next) = video_stream_step(counter, wake);
        if let StreamAction::Store { frame_id } = action {
            ids.push(frame_id);
        }
        counter = next;
    }
    assert_eq!(ids, vec![0, 1, 4, 5]);
    assert_eq!(counter, 7);
}
