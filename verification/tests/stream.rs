use aperio::stream::{
    after_push, build_ws_message_from_buffer, frame_duration_ns, frame_timing, handle_new_sample,
    PushOutcome, SampleBuffer, SampleFlow,
};
use aperio::ws::{connection_step, ConnectionAction, ConnectionEvent};

fn buffer(delta_unit: bool, header: bool, pts_ns: Option<u64>, data: Option<Vec<u8>>) -> SampleBuffer {
    SampleBuffer { delta_unit, header, pts_ns, data }
}

#[test]
fn keyframe_message_layout() {
    let msg = build_ws_message_from_buffer(&buffer(false, false, Some(0x0102), Some(vec![9, 8, 7])))
        .unwrap();
    assert_eq!(msg, vec![0x01, 0x02, 0x01, 0, 0, 0, 0, 0, 0, 9, 8, 7]);
}

#[test]
fn config_keyframe_sets_both_flags() {
    let msg = build_ws_message_from_buffer(&buffer(false, true, Some(5), Some(vec![]))).unwrap();
    assert_eq!(msg[0], 0x03);
    assert_eq!(msg.len(), 9);
}

#[test]
fn delta_config_sets_config_flag_only() {
    let msg = build_ws_message_from_buffer(&buffer(true, true, Some(5), Some(vec![1]))).unwrap();
    assert_eq!(msg[0], 0x02);
}

#[test]
fn delta_frame_has_no_flags() {
    let msg = build_ws_message_from_buffer(&buffer(true, false, Some(5), Some(vec![1]))).unwrap();
    assert_eq!(msg[0], 0x00);
}

#[test]
fn missing_pts_is_written_as_minus_one() {
    let msg = build_ws_message_from_buffer(&buffer(true, false, None, Some(vec![4]))).unwrap();
    assert_eq!(&msg[1..9], &(-1i64).to_le_bytes());
    assert_eq!(msg[9], 4);
}

#[test]
fn pts_matches_std_little_endian() {
    let pts: u64 = 1_234_567_890_123;
    let msg = build_ws_message_from_buffer(&buffer(false, false, Some(pts), Some(vec![]))).unwrap();
    assert_eq!(&msg[1..9], &(pts as i64).to_le_bytes());
    let mut header = [0u8; 8];
    header.copy_from_slice(&msg[1..9]);
    assert_eq!(i64::from_le_bytes(header), pts as i64);
}

#[test]
fn huge_pts_wraps_to_negative() {
    let pts: u64 = u64::MAX - 1;
    let msg = build_ws_message_from_buffer(&buffer(false, false, Some(pts), Some(vec![]))).unwrap();
    assert_eq!(&msg[1..9], &(-2i64).to_le_bytes());
}

#[test]
fn unreadable_buffer_gives_no_message() {
    assert!(build_ws_message_from_buffer(&buffer(false, false, Some(1), None)).is_none());
}

#[test]
fn frame_duration_is_one_sixtieth_of_a_second() {
    assert_eq!(frame_duration_ns(), 16_666_666);
}

#[test]
fn frame_timing_multiplies_the_index() {
    let t = frame_timing(3);
    assert_eq!(t.pts_ns, 49_999_998);
    assert_eq!(t.dts_ns, t.pts_ns);
    assert_eq!(t.duration_ns, 16_666_666);
    let next = frame_timing(4);
    assert_eq!(next.pts_ns - t.pts_ns, t.duration_ns);
}

#[test]
fn pushed_frame_advances_and_reports_every_thirtieth() {
    let s = after_push(28, PushOutcome::Pushed);
    assert_eq!(s.frame_count, 29);
    assert!(!s.report_progress && !s.stop_batch && !s.report_flushing);
    let s = after_push(29, PushOutcome::Pushed);
    assert_eq!(s.frame_count, 30);
    assert!(s.report_progress);
}

#[test]
fn flushing_keeps_the_frame_index() {
    let s = after_push(7, PushOutcome::Flushing);
    assert_eq!(s.frame_count, 7);
    assert!(s.report_flushing && !s.stop_batch && !s.report_progress);
}

#[test]
fn failed_push_stops_the_batch() {
    let s = after_push(7, PushOutcome::Failed);
    assert_eq!(s.frame_count, 7);
    assert!(s.stop_batch && !s.report_flushing && !s.report_progress);
}

#[test]
fn new_sample_is_framed_and_streaming_goes_on() {
    let b = buffer(false, false, Some(1), Some(vec![5]));
    let h = handle_new_sample(Some(&b));
    assert_eq!(h.flow, SampleFlow::Continue);
    assert_eq!(h.message, build_ws_message_from_buffer(&b));
}

#[test]
fn failed_pull_ends_the_stream() {
    let h = handle_new_sample(None);
    assert_eq!(h.flow, SampleFlow::Eos);
    assert!(h.message.is_none());
}

#[test]
fn broadcast_is_forwarded_unchanged() {
    assert_eq!(
        connection_step(ConnectionEvent::Broadcast(vec![1, 2, 3])),
        ConnectionAction::Send(vec![1, 2, 3])
    );
}

#[test]
fn client_messages_are_ignored_and_errors_disconnect() {
    assert_eq!(connection_step(ConnectionEvent::ClientMessage), ConnectionAction::Wait);
    assert_eq!(connection_step(ConnectionEvent::SendFailed), ConnectionAction::Disconnect);
    assert_eq!(connection_step(ConnectionEvent::ClientError), ConnectionAction::Disconnect);
    assert_eq!(connection_step(ConnectionEvent::ClientClosed), ConnectionAction::Disconnect);
}
