//! Tests of the per-session bridge decisions and lifecycle.

use base64::Engine;
use realtime_bridge::bridge::{
    phase_step, run_synthesis_client_loop, run_transcription_client_loop, synthesis_client_step,
    synthesis_upstream_step, transcription_client_step, transcription_upstream_step, ClientAction,
    ClientFrame, CloseInfo, SessionEvent, SessionPhase, UpstreamAction, UpstreamFrame,
};

#[test]
fn test_connect_success_enters_bridging() {
    assert_eq!(
        phase_step(SessionPhase::Connecting, SessionEvent::ConnectSucceeded),
        SessionPhase::Bridging
    );
}

#[test]
fn test_connect_failure_is_fatal() {
    assert_eq!(
        phase_step(SessionPhase::Connecting, SessionEvent::ConnectFailed),
        SessionPhase::Closed
    );
}

#[test]
fn test_either_loop_ending_closes_the_session() {
    assert_eq!(
        phase_step(SessionPhase::Bridging, SessionEvent::LoopEnded),
        SessionPhase::Closed
    );
}

#[test]
fn test_closed_is_terminal() {
    assert_eq!(
        phase_step(SessionPhase::Closed, SessionEvent::ConnectSucceeded),
        SessionPhase::Closed
    );
    assert_eq!(
        phase_step(SessionPhase::Closed, SessionEvent::LoopEnded),
        SessionPhase::Closed
    );
}

#[test]
fn test_client_close_sends_one_close_and_stops() {
    // A client close frame during an active session: exactly one close goes
    // upstream, no data event, and the loop ends, which closes the session.
    let (action, go_on) = synthesis_client_step(&ClientFrame::Close);
    assert_eq!(action, UpstreamAction::SendClose);
    assert!(!go_on);
    let (action, go_on) = transcription_client_step(&ClientFrame::Close);
    assert_eq!(action, UpstreamAction::SendClose);
    assert!(!go_on);
    assert_eq!(
        phase_step(SessionPhase::Bridging, SessionEvent::LoopEnded),
        SessionPhase::Closed
    );
}

#[test]
fn test_receive_error_on_upstream_read_closes_the_session() {
    // A transport-level receive error ends the owning loop; the race makes
    // that the end of the whole session, whatever the other task is doing.
    assert_eq!(
        phase_step(SessionPhase::Bridging, SessionEvent::LoopEnded),
        SessionPhase::Closed
    );
}

#[test]
fn test_transcription_binary_becomes_audio_append() {
    let audio: Vec<u8> = vec![1u8, 2, 3];
    let (action, go_on) = transcription_client_step(&ClientFrame::Binary(audio.clone()));
    assert!(go_on);
    match action {
        UpstreamAction::SendEvents(msgs) => {
            assert_eq!(msgs.len(), 1);
            let v: serde_json::Value = serde_json::from_str(&msgs[0]).unwrap();
            assert_eq!(v["type"].as_str().unwrap(), "input_audio_buffer.append");
            assert_eq!(
                v["audio"].as_str().unwrap(),
                base64::engine::general_purpose::STANDARD.encode(&audio)
            );
        }
        other => panic!("expected events, got {:?}", other),
    }
}

#[test]
fn test_transcription_ignores_client_text() {
    let (action, go_on) = transcription_client_step(&ClientFrame::Text("hi".to_string()));
    assert_eq!(action, UpstreamAction::Nothing);
    assert!(go_on);
}

#[test]
fn test_synthesis_text_becomes_appends_and_commit() {
    let (action, go_on) = synthesis_client_step(&ClientFrame::Text("Hello **world**!".to_string()));
    assert!(go_on);
    match action {
        UpstreamAction::SendEvents(msgs) => {
            assert_eq!(msgs.len(), 2);
            let v: serde_json::Value = serde_json::from_str(&msgs[0]).unwrap();
            assert_eq!(v["text"].as_str().unwrap(), "Hello world");
            let c: serde_json::Value = serde_json::from_str(&msgs[1]).unwrap();
            assert_eq!(c["type"].as_str().unwrap(), "input_text_buffer.commit");
        }
        other => panic!("expected events, got {:?}", other),
    }
}

#[test]
fn test_synthesis_ignores_client_binary() {
    let (action, go_on) = synthesis_client_step(&ClientFrame::Binary(vec![1u8]));
    assert_eq!(action, UpstreamAction::Nothing);
    assert!(go_on);
}

#[test]
fn test_audio_delta_frame_emits_one_binary_frame() {
    let audio: Vec<u8> = vec![10u8, 20, 30, 40];
    let payload = format!(
        "{{\"type\":\"response.audio.delta\",\"delta\":\"{}\"}}",
        base64::engine::general_purpose::STANDARD.encode(&audio)
    );
    let (action, go_on) = synthesis_upstream_step(UpstreamFrame::Text(payload));
    assert!(go_on);
    assert_eq!(action, ClientAction::SendBinary(audio));
}

#[test]
fn test_upstream_error_emits_nothing_and_session_stays_open() {
    let payload = "{\"type\":\"error\",\"code\":500}".to_string();
    let (action, go_on) = synthesis_upstream_step(UpstreamFrame::Text(payload.clone()));
    assert_eq!(action, ClientAction::Nothing);
    assert!(go_on);
    let (action, go_on) = transcription_upstream_step(UpstreamFrame::Text(payload));
    assert_eq!(action, ClientAction::Nothing);
    assert!(go_on);
}

#[test]
fn test_transcript_text_frame_is_forwarded_to_client() {
    let payload =
        "{\"type\":\"conversation.item.input_audio_transcription.text\",\"text\":\"partial\"}"
            .to_string();
    let (action, go_on) = transcription_upstream_step(UpstreamFrame::Text(payload));
    assert!(go_on);
    assert_eq!(action, ClientAction::SendText("partial".to_string()));
}

#[test]
fn test_upstream_close_is_echoed_with_metadata() {
    let ci = CloseInfo { code: 1000, reason: "done".to_string() };
    let (action, go_on) = synthesis_upstream_step(UpstreamFrame::Close(Some(ci)));
    assert!(!go_on);
    match action {
        ClientAction::SendClose(Some(c)) => {
            assert_eq!(c.code, 1000);
            assert_eq!(c.reason, "done");
        }
        other => panic!("expected close echo, got {:?}", other),
    }
}

#[test]
fn test_upstream_ping_pong_are_ignored() {
    let (action, go_on) = transcription_upstream_step(UpstreamFrame::Ping(vec![]));
    assert_eq!(action, ClientAction::Nothing);
    assert!(go_on);
    let (action, go_on) = synthesis_upstream_step(UpstreamFrame::Pong(vec![1u8]));
    assert_eq!(action, ClientAction::Nothing);
    assert!(go_on);
}

#[test]
fn test_malformed_upstream_payload_is_skipped() {
    let (action, go_on) = synthesis_upstream_step(UpstreamFrame::Text("not json".to_string()));
    assert_eq!(action, ClientAction::Nothing);
    assert!(go_on);
}

#[test]
fn test_loop_model_stops_at_first_close() {
    let frames = vec![
        ClientFrame::Text("hello".to_string()),
        ClientFrame::Close,
        ClientFrame::Text("after close".to_string()),
    ];
    let log = run_synthesis_client_loop(&frames);
    assert_eq!(log.len(), 2);
    assert!(matches!(log[0], UpstreamAction::SendEvents(_)));
    assert_eq!(log[1], UpstreamAction::SendClose);

    let frames = vec![
        ClientFrame::Binary(vec![1u8, 2]),
        ClientFrame::Close,
        ClientFrame::Binary(vec![3u8]),
    ];
    let log = run_transcription_client_loop(&frames);
    assert_eq!(log.len(), 2);
    assert!(matches!(log[0], UpstreamAction::SendEvents(_)));
    assert_eq!(log[1], UpstreamAction::SendClose);
}

#[test]
fn test_loop_model_without_close_sends_no_close() {
    let frames = vec![
        ClientFrame::Text("a".to_string()),
        ClientFrame::Ping(vec![]),
        ClientFrame::Text("b".to_string()),
    ];
    let log = run_synthesis_client_loop(&frames);
    assert_eq!(log.len(), 3);
    assert!(log.iter().all(|a| *a != UpstreamAction::SendClose));
}
