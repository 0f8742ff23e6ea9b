//! Tests of the generic proxy paths' header filtering, target URLs, and
//! frame relay.

use realtime_bridge::bridge::{ClientFrame, UpstreamFrame};
use realtime_bridge::proxy::{
    compatible_mode_url, is_blocked_request_header, is_blocked_response_header,
    passthrough_client_step, passthrough_upstream_step, websocket_api_url, RelayAction, RelayFrame,
};

#[test]
fn test_request_header_blocklist() {
    assert!(is_blocked_request_header("host"));
    assert!(is_blocked_request_header("Connection"));
    assert!(is_blocked_request_header("TRANSFER-ENCODING"));
    assert!(is_blocked_request_header("Origin"));
    assert!(is_blocked_request_header("referer"));
    assert!(!is_blocked_request_header("content-type"));
    assert!(!is_blocked_request_header("authorization"));
    assert!(!is_blocked_request_header("accept"));
}

#[test]
fn test_response_header_blocklist() {
    assert!(is_blocked_response_header("connection"));
    assert!(is_blocked_response_header("Access-Control-Allow-Origin"));
    assert!(is_blocked_response_header("access-control-max-age"));
    assert!(!is_blocked_response_header("content-type"));
    assert!(!is_blocked_response_header("content-length"));
    // stripped from responses but not from requests
    assert!(!is_blocked_request_header("access-control-allow-origin"));
    // stripped from requests but not from responses
    assert!(!is_blocked_response_header("host"));
}

#[test]
fn test_compatible_mode_url_with_and_without_query() {
    assert_eq!(
        compatible_mode_url("chat/completions", &None),
        "https://dashscope.aliyuncs.com/compatible-mode/v1/chat/completions"
    );
    assert_eq!(
        compatible_mode_url("models", &Some("page=2".to_string())),
        "https://dashscope.aliyuncs.com/compatible-mode/v1/models?page=2"
    );
}

#[test]
fn test_websocket_api_url_with_and_without_query() {
    assert_eq!(
        websocket_api_url("inference", &None),
        "wss://dashscope.aliyuncs.com/api-ws/v1/inference"
    );
    assert_eq!(
        websocket_api_url("inference", &Some("model=x".to_string())),
        "wss://dashscope.aliyuncs.com/api-ws/v1/inference?model=x"
    );
}

#[test]
fn test_passthrough_forwards_data_frames_unchanged() {
    let (a, go_on) = passthrough_client_step(ClientFrame::Text("hello".to_string()));
    assert!(go_on);
    assert_eq!(a, RelayAction::Forward(RelayFrame::Text("hello".to_string())));
    let (a, go_on) = passthrough_client_step(ClientFrame::Binary(vec![1u8, 2]));
    assert!(go_on);
    assert_eq!(a, RelayAction::Forward(RelayFrame::Binary(vec![1u8, 2])));
    let (a, go_on) = passthrough_upstream_step(UpstreamFrame::Ping(vec![9u8]));
    assert!(go_on);
    assert_eq!(a, RelayAction::Forward(RelayFrame::Ping(vec![9u8])));
}

#[test]
fn test_passthrough_close_ends_loop_with_bare_close() {
    let (a, go_on) = passthrough_client_step(ClientFrame::Close);
    assert!(!go_on);
    assert_eq!(a, RelayAction::CloseOut);
    let (a, go_on) = passthrough_upstream_step(UpstreamFrame::Close(None));
    assert!(!go_on);
    assert_eq!(a, RelayAction::CloseOut);
}

#[test]
fn test_passthrough_ignores_raw_frames() {
    let (a, go_on) = passthrough_upstream_step(UpstreamFrame::Raw);
    assert!(go_on);
    assert_eq!(a, RelayAction::Drop);
}
