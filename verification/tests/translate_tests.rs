//! Tests of the event translator, run against the real JSON and base64
//! crates.

use base64::Engine;
use realtime_bridge::translate::{
    audio_append_message, classify_synthesis_fields, classify_transcription_fields,
    synthesis_disposition, synthesis_messages, transcription_disposition, UpstreamDisposition,
};

fn b64(data: &[u8]) -> String {
    base64::engine::general_purpose::STANDARD.encode(data)
}

#[test]
fn test_audio_delta_is_decoded_and_forwarded_as_binary() {
    let audio: Vec<u8> = vec![0u8, 1, 2, 250, 251, 252];
    let payload = format!(
        "{{\"type\":\"response.audio.delta\",\"delta\":\"{}\"}}",
        b64(&audio)
    );
    let d = synthesis_disposition(&payload);
    assert_eq!(d, UpstreamDisposition::ForwardAudio(audio));
}

#[test]
fn test_error_event_is_not_forwarded_in_synthesis() {
    let payload = "{\"type\":\"error\",\"message\":\"boom\"}";
    let d = synthesis_disposition(payload);
    assert_eq!(d, UpstreamDisposition::Unknown);
}

#[test]
fn test_error_event_is_reported_not_forwarded_in_transcription() {
    let payload = "{\"type\":\"error\",\"message\":\"boom\"}";
    let d = transcription_disposition(payload);
    assert_eq!(d, UpstreamDisposition::UpstreamError);
}

#[test]
fn test_transcript_text_is_forwarded_unmodified() {
    let payload =
        "{\"type\":\"conversation.item.input_audio_transcription.text\",\"text\":\"hello there\"}";
    let d = transcription_disposition(payload);
    assert_eq!(d, UpstreamDisposition::ForwardText("hello there".to_string()));
}

#[test]
fn test_transcript_without_text_field_is_discarded() {
    let payload = "{\"type\":\"conversation.item.input_audio_transcription.text\"}";
    let d = transcription_disposition(payload);
    assert_eq!(d, UpstreamDisposition::MissingField);
}

#[test]
fn test_transcription_failed_event_is_reported() {
    let payload = "{\"type\":\"conversation.item.input_audio_transcription.failed\"}";
    let d = transcription_disposition(payload);
    assert_eq!(d, UpstreamDisposition::Failure);
}

#[test]
fn test_unparseable_payload_is_malformed() {
    assert_eq!(
        transcription_disposition("this is not json"),
        UpstreamDisposition::Malformed
    );
    assert_eq!(
        synthesis_disposition("{\"type\":"),
        UpstreamDisposition::Malformed
    );
}

#[test]
fn test_unknown_discriminator_is_ignored() {
    let payload = "{\"type\":\"session.created\"}";
    assert_eq!(transcription_disposition(payload), UpstreamDisposition::Unknown);
    assert_eq!(synthesis_disposition(payload), UpstreamDisposition::Unknown);
}

#[test]
fn test_missing_discriminator_is_ignored() {
    let payload = "{\"delta\":\"AAAA\"}";
    assert_eq!(synthesis_disposition(payload), UpstreamDisposition::Unknown);
}

#[test]
fn test_audio_delta_without_delta_field_is_discarded() {
    let payload = "{\"type\":\"response.audio.delta\"}";
    assert_eq!(synthesis_disposition(payload), UpstreamDisposition::MissingField);
}

#[test]
fn test_audio_delta_with_invalid_base64_is_bad_encoding() {
    let payload = "{\"type\":\"response.audio.delta\",\"delta\":\"!!!not-base64!!!\"}";
    assert_eq!(synthesis_disposition(payload), UpstreamDisposition::BadEncoding);
}

#[test]
fn test_classifiers_on_extracted_fields() {
    let d = classify_transcription_fields(
        true,
        &Some("conversation.item.input_audio_transcription.text".to_string()),
        &Some("hi".to_string()),
    );
    assert_eq!(d, UpstreamDisposition::ForwardText("hi".to_string()));
    let d = classify_transcription_fields(false, &None, &None);
    assert_eq!(d, UpstreamDisposition::Malformed);
    let d = classify_synthesis_fields(
        true,
        &Some("response.audio.delta".to_string()),
        &Some(b64(b"pcm")),
    );
    assert_eq!(d, UpstreamDisposition::ForwardAudio(b"pcm".to_vec()));
}

#[test]
fn test_audio_append_message_shape() {
    let audio: Vec<u8> = vec![7u8, 8, 9, 200];
    let msg = audio_append_message(&audio);
    let v: serde_json::Value = serde_json::from_str(&msg).unwrap();
    assert_eq!(v["type"].as_str().unwrap(), "input_audio_buffer.append");
    assert_eq!(v["audio"].as_str().unwrap(), b64(&audio));
    assert_eq!(v["event_id"].as_str().unwrap().len(), 36);
}

#[test]
fn test_synthesis_messages_appends_then_commit() {
    let msgs = synthesis_messages("Hello **world**!");
    assert_eq!(msgs.len(), 2);
    let first: serde_json::Value = serde_json::from_str(&msgs[0]).unwrap();
    assert_eq!(first["type"].as_str().unwrap(), "input_text_buffer.append");
    assert_eq!(first["text"].as_str().unwrap(), "Hello world");
    assert_eq!(first["event_id"].as_str().unwrap().len(), 36);
    let last: serde_json::Value = serde_json::from_str(&msgs[1]).unwrap();
    assert_eq!(last["type"].as_str().unwrap(), "input_text_buffer.commit");
    assert!(last.get("text").is_none());
}

#[test]
fn test_synthesis_messages_chunk_long_text() {
    let text = format!("{} {} {}", "a".repeat(50), "b".repeat(50), "c".repeat(50));
    let msgs = synthesis_messages(&text);
    assert_eq!(msgs.len(), 4);
    let expected = ["a".repeat(50), "b".repeat(50), "c".repeat(50)];
    for (i, e) in expected.iter().enumerate() {
        let v: serde_json::Value = serde_json::from_str(&msgs[i]).unwrap();
        assert_eq!(v["type"].as_str().unwrap(), "input_text_buffer.append");
        assert_eq!(v["text"].as_str().unwrap(), *e);
    }
    let last: serde_json::Value = serde_json::from_str(&msgs[3]).unwrap();
    assert_eq!(last["type"].as_str().unwrap(), "input_text_buffer.commit");
}

#[test]
fn test_synthesis_message_ids_are_fresh() {
    let msgs = synthesis_messages("one two");
    let a: serde_json::Value = serde_json::from_str(&msgs[0]).unwrap();
    let b: serde_json::Value = serde_json::from_str(&msgs[1]).unwrap();
    assert_ne!(a["event_id"].as_str().unwrap(), b["event_id"].as_str().unwrap());
}

#[test]
fn test_event_ids_are_hyphenated_v7_uuids() {
    let msg = audio_append_message(&vec![1u8, 2, 3]);
    let v: serde_json::Value = serde_json::from_str(&msg).unwrap();
    let id = v["event_id"].as_str().unwrap();
    assert_eq!(id.len(), 36);
    let chars: Vec<char> = id.chars().collect();
    for (i, c) in chars.iter().enumerate() {
        if i == 8 || i == 13 || i == 18 || i == 23 {
            assert_eq!(*c, '-');
        } else {
            assert!(c.is_ascii_hexdigit() && !c.is_ascii_uppercase());
        }
    }
    assert_eq!(chars[14], '7');
    assert!(matches!(chars[19], '8' | '9' | 'a' | 'b'));
}
