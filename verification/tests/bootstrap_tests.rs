//! Tests of the upstream session bootstrap plans.

use realtime_bridge::bootstrap::{
    bearer_header_value, plan_synthesis_session, plan_transcription_session, TtsRealtimeQuery,
};

#[test]
fn test_bearer_header_value() {
    assert_eq!(bearer_header_value("sk-123"), "Bearer sk-123");
}

#[test]
fn test_transcription_plan_url_and_headers() {
    let p = plan_transcription_session("sk-123");
    assert_eq!(
        p.url,
        "wss://dashscope.aliyuncs.com/api-ws/v1/realtime?model=qwen3-asr-flash-realtime"
    );
    assert_eq!(p.headers.len(), 2);
    assert_eq!(p.headers[0].0, "Authorization");
    assert_eq!(p.headers[0].1, "Bearer sk-123");
    assert_eq!(p.headers[1].0, "OpenAI-Beta");
    assert_eq!(p.headers[1].1, "realtime=v1");
}

#[test]
fn test_transcription_init_event_shape() {
    let p = plan_transcription_session("sk-123");
    let v: serde_json::Value = serde_json::from_str(&p.init_event).unwrap();
    assert_eq!(v["type"].as_str().unwrap(), "session.update");
    assert_eq!(v["event_id"].as_str().unwrap().len(), 36);
    let session = &v["session"];
    assert_eq!(session["modalities"][0].as_str().unwrap(), "text");
    assert_eq!(session["input_audio_format"].as_str().unwrap(), "pcm");
    assert_eq!(session["sample_rate"].as_i64().unwrap(), 16000);
    assert_eq!(session["turn_detection"]["type"].as_str().unwrap(), "server_vad");
}

#[test]
fn test_synthesis_plan_url_and_headers() {
    let q = TtsRealtimeQuery { voice: "Cherry".to_string() };
    let p = plan_synthesis_session("sk-abc", &q);
    assert_eq!(
        p.url,
        "wss://dashscope.aliyuncs.com/api-ws/v1/realtime?model=qwen3-tts-flash-realtime&voice=Cherry"
    );
    assert_eq!(p.headers.len(), 1);
    assert_eq!(p.headers[0].0, "Authorization");
    assert_eq!(p.headers[0].1, "Bearer sk-abc");
}

#[test]
fn test_synthesis_plan_encodes_voice_query_value() {
    let q = TtsRealtimeQuery { voice: "my voice/+x".to_string() };
    let p = plan_synthesis_session("k", &q);
    assert_eq!(
        p.url,
        "wss://dashscope.aliyuncs.com/api-ws/v1/realtime?model=qwen3-tts-flash-realtime&voice=my+voice%2F%2Bx"
    );
}

#[test]
fn test_synthesis_init_event_shape() {
    let q = TtsRealtimeQuery { voice: "Cherry".to_string() };
    let p = plan_synthesis_session("sk-abc", &q);
    let v: serde_json::Value = serde_json::from_str(&p.init_event).unwrap();
    assert_eq!(v["type"].as_str().unwrap(), "session.update");
    assert_eq!(v["event_id"].as_str().unwrap().len(), 36);
    let session = &v["session"];
    assert_eq!(session["voice"].as_str().unwrap(), "Cherry");
    assert_eq!(session["response_format"].as_str().unwrap(), "pcm");
    assert_eq!(session["sample_rate"].as_i64().unwrap(), 24000);
}

#[test]
fn test_init_event_escapes_voice_text() {
    let q = TtsRealtimeQuery { voice: "a\"b\\c".to_string() };
    let p = plan_synthesis_session("k", &q);
    let v: serde_json::Value = serde_json::from_str(&p.init_event).unwrap();
    assert_eq!(v["session"]["voice"].as_str().unwrap(), "a\"b\\c");
}
