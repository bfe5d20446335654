use sharder::codec::encode_record;
use sharder::frame::Frame;
use sharder::supervisor::{
    classify, on_error, CloseInfo, ErrorStep, LoopOutcome, Recovery, ShardError, Supervisor,
};

const RESET: &[u8] = b"Connection reset without closing handshake";

#[test]
fn stream_end_is_session_loss() {
    assert!(matches!(classify(&ShardError::StreamEnded), LoopOutcome::SessionLoss));
}

#[test]
fn oversized_frame_is_skipped_without_reconnect() {
    assert!(matches!(classify(&ShardError::Capacity), LoopOutcome::Continue));
    assert!(matches!(on_error(&ShardError::Capacity, true), ErrorStep::KeepLooping));
    assert!(matches!(on_error(&ShardError::Capacity, false), ErrorStep::KeepLooping));
}

#[test]
fn close_frame_is_session_loss() {
    let err = ShardError::ConnectionClosed(Some(CloseInfo { code: 4009, reason: Vec::new() }));
    assert!(matches!(classify(&err), LoopOutcome::SessionLoss));
    let err = ShardError::ConnectionClosed(None);
    assert!(matches!(classify(&err), LoopOutcome::Continue));
}

#[test]
fn connection_reset_is_session_loss_other_protocol_errors_are_not() {
    let reset = ShardError::Protocol(RESET.to_vec());
    assert!(matches!(classify(&reset), LoopOutcome::SessionLoss));
    let other = ShardError::Protocol(b"SendAfterClosing".to_vec());
    assert!(matches!(classify(&other), LoopOutcome::Continue));
    let almost = ShardError::Protocol(RESET[..RESET.len() - 1].to_vec());
    assert!(matches!(classify(&almost), LoopOutcome::Continue));
}

#[test]
fn json_and_other_failures_keep_looping() {
    assert!(matches!(classify(&ShardError::Json), LoopOutcome::Continue));
    assert!(matches!(classify(&ShardError::Other), LoopOutcome::Continue));
}

#[test]
fn live_session_resumes_without_a_ticket() {
    let err = ShardError::Protocol(RESET.to_vec());
    assert!(matches!(on_error(&err, true), ErrorStep::Recover(Recovery::Resume)));
}

#[test]
fn lost_session_reconnects_through_the_queue() {
    let err = ShardError::ConnectionClosed(Some(CloseInfo { code: 4009, reason: Vec::new() }));
    assert!(matches!(
        on_error(&err, false),
        ErrorStep::Recover(Recovery::EnqueueThenReconnect)
    ));
}

#[test]
fn text_frame_is_published_with_shard_tag() {
    let frame = Frame::Text(br#"{"op":11}"#.to_vec());
    let payload = frame.into_payload().unwrap();
    let record = encode_record(payload, 2);
    assert_eq!(record, b"{\"op\":11}\x02\x00".to_vec());
}

#[test]
fn invalid_utf8_text_frame_is_still_framed() {
    let bytes = vec![0xffu8, 0xfe, 0x00];
    let frame = Frame::Text(bytes.clone());
    let payload = frame.into_payload().unwrap();
    let record = encode_record(payload, 1);
    assert_eq!(record, vec![0xff, 0xfe, 0x00, 1, 0]);
}

#[test]
fn supervisor_publishes_only_processed_payload_frames() {
    let mut supervisor = Supervisor::new(3);
    let record = supervisor.observe_frame(Frame::Binary(vec![7, 8]), true);
    assert_eq!(record, Some(vec![7, 8, 3, 0]));
    assert!(supervisor.observe_frame(Frame::Ping(vec![1]), true).is_none());
    assert!(supervisor.observe_frame(Frame::Text(b"x".to_vec()), false).is_none());
    supervisor.observe_failure(&ShardError::Capacity);
    let record = supervisor.observe_frame(Frame::Text(b"y".to_vec()), true);
    assert_eq!(record, Some(vec![b'y', 3, 0]));
}

#[test]
fn control_frames_publish_nothing() {
    assert!(Frame::Ping(vec![1]).into_payload().is_none());
    assert!(Frame::Pong(Vec::new()).into_payload().is_none());
    assert!(Frame::Close(1000, Vec::new()).into_payload().is_none());
    assert_eq!(Frame::Binary(vec![5, 6]).into_payload(), Some(vec![5, 6]));
}

#[test]
fn borrowed_payload_matches_owned_payload() {
    let text = Frame::Text(b"ab".to_vec());
    assert_eq!(text.payload_ref(), Some(&b"ab".to_vec()));
    assert_eq!(text.into_payload(), Some(b"ab".to_vec()));
    assert!(Frame::Ping(vec![9]).payload_ref().is_none());
    assert!(Frame::Close(4009, b"gone".to_vec()).payload_ref().is_none());
}
