use logship::agent::api_service::{
    checkpoint_after, forward_outcome, is_header_value, ForwardError, HttpApiService,
};
use logship::agent::checkpoint::{encode, load, CheckpointError, CHECKPOINT_LEN};
use logship::common::log::Log;

#[test]
fn request_posts_the_payload_to_the_log_path() {
    let service = HttpApiService::new("http://gateway:8080", "secret");
    let payload = b"{\"time\": 1000, \"msg\":\"a\"}";
    let log = Log::try_from(&payload[..]).unwrap();
    let request = service.send_log(&log);
    assert_eq!(request.url, "http://gateway:8080/log");
    assert_eq!(request.authorization, "secret");
    assert_eq!(&request.body[..], &payload[..]);
}

#[test]
fn statuses_in_the_2xx_range_are_delivered() {
    assert!(forward_outcome(Ok(200)).is_ok());
    assert!(forward_outcome(Ok(204)).is_ok());
    assert!(forward_outcome(Ok(299)).is_ok());
}

#[test]
fn other_statuses_are_rejections() {
    for status in [0u16, 199, 300, 400, 401, 500, 65535] {
        match forward_outcome(Ok(status)) {
            Err(ForwardError::RejectedByGateway { status: seen }) => assert_eq!(seen, status),
            _ => panic!("status {} is no delivery", status),
        }
    }
}

#[test]
fn missing_response_is_a_transport_failure() {
    match forward_outcome(Err("connection refused".to_string())) {
        Err(ForwardError::TransportFailure { reason }) => assert_eq!(reason, "connection refused"),
        _ => panic!("no response is no delivery"),
    }
}

#[test]
fn watermark_moves_only_on_delivery() {
    assert_eq!(checkpoint_after(1001, &Ok(())), Some(1001));
    assert_eq!(checkpoint_after(1001, &forward_outcome(Ok(401))), None);
    assert_eq!(checkpoint_after(1001, &forward_outcome(Err("down".to_string()))), None);
    assert_eq!(checkpoint_after(0, &forward_outcome(Ok(200))), Some(0));
}

#[test]
fn credential_must_be_a_header_value() {
    assert!(is_header_value("secret"));
    assert!(is_header_value(""));
    assert!(is_header_value("a b\tc~"));
    assert!(is_header_value("caf\u{e9}"));
    assert!(!is_header_value("a\nb"));
    assert!(!is_header_value("a\rb"));
    assert!(!is_header_value("\u{7f}"));
    assert!(!is_header_value("\u{0}"));
    assert!(!is_header_value("x\u{1f}"));
}

#[test]
fn checkpoint_is_eight_little_endian_bytes() {
    assert_eq!(CHECKPOINT_LEN, 8);
    assert_eq!(encode(0), vec![0u8; 8]);
    assert_eq!(encode(1001), vec![0xe9, 0x03, 0, 0, 0, 0, 0, 0]);
    assert_eq!(encode(0x0102_0304_0506_0708), vec![8, 7, 6, 5, 4, 3, 2, 1]);
    assert_eq!(encode(u64::MAX), vec![0xffu8; 8]);
}

#[test]
fn stored_checkpoint_is_loaded_back() {
    for time in [0u64, 1, 1000, 1001, 1_665_622_800_655, u64::MAX] {
        let stored = encode(time);
        assert_eq!(load(Some(&stored[..])), Ok(time));
    }
}

#[test]
fn missing_checkpoint_starts_at_zero() {
    assert_eq!(load(None), Ok(0));
}

#[test]
fn torn_checkpoint_is_reported() {
    assert_eq!(load(Some(&[][..])), Err(CheckpointError::WrongLength { found: 0 }));
    assert_eq!(load(Some(&[1, 2, 3][..])), Err(CheckpointError::WrongLength { found: 3 }));
    assert_eq!(load(Some(&[0u8; 9][..])), Err(CheckpointError::WrongLength { found: 9 }));
}
