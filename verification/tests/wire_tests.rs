//! Tests of the exact JSON texts put on the wire.

use realtime_bridge::wire::{
    audio_append_event, commit_event, session_update_synthesis, session_update_transcription,
    text_append_event,
};

#[test]
fn test_text_append_event_exact_text() {
    let r = text_append_event("id-1", "hello");
    assert_eq!(
        r,
        "{\"event_id\":\"id-1\",\"text\":\"hello\",\"type\":\"input_text_buffer.append\"}"
    );
}

#[test]
fn test_commit_event_exact_text() {
    let r = commit_event("id-2");
    assert_eq!(r, "{\"event_id\":\"id-2\",\"type\":\"input_text_buffer.commit\"}");
}

#[test]
fn test_audio_append_event_exact_text() {
    let r = audio_append_event("id-3", "AAEC");
    assert_eq!(
        r,
        "{\"audio\":\"AAEC\",\"event_id\":\"id-3\",\"type\":\"input_audio_buffer.append\"}"
    );
}

#[test]
fn test_session_update_transcription_exact_text() {
    let r = session_update_transcription("id-4");
    assert_eq!(
        r,
        "{\"event_id\":\"id-4\",\"session\":{\"input_audio_format\":\"pcm\",\"modalities\":[\"text\"],\"sample_rate\":16000,\"turn_detection\":{\"type\":\"server_vad\"}},\"type\":\"session.update\"}"
    );
}

#[test]
fn test_session_update_synthesis_exact_text() {
    let r = session_update_synthesis("id-5", "Cherry");
    assert_eq!(
        r,
        "{\"event_id\":\"id-5\",\"session\":{\"response_format\":\"pcm\",\"sample_rate\":24000,\"voice\":\"Cherry\"},\"type\":\"session.update\"}"
    );
}

#[test]
fn test_event_text_escaping_matches_json() {
    let r = text_append_event("id-6", "a\"b\\c\nd\te\u{1}f");
    let v: serde_json::Value = serde_json::from_str(&r).unwrap();
    assert_eq!(v["text"].as_str().unwrap(), "a\"b\\c\nd\te\u{1}f");
    assert!(r.contains("\\u0001"));
    assert!(r.contains("\\n"));
}

#[test]
fn test_event_text_matches_serde_rendering() {
    // The hand-framed event must be byte-identical to what the JSON crate
    // would print for the same object.
    let r = text_append_event("id-7", "line\nbreak \"quoted\" \u{8}\u{c}\u{1f}");
    let v: serde_json::Value = serde_json::from_str(&r).unwrap();
    assert_eq!(serde_json::to_string(&v).unwrap(), r);
}
