//! The event translator.
//!
//! Inbound upstream payloads are JSON objects routed solely by their `type`
//! discriminator. Parsing and field extraction are deterministic functions
//! of the payload text, done by `serde_json` behind trusted shims whose
//! results carry names ([`json_parses`], [`json_str_field_of`]); what the
//! translator owes for a payload is then stated over those names, exactly
//! and totally, at the public functions. Outbound frames are wrapped into
//! the wire events of [`crate::wire`] under fresh event ids.

use vstd::prelude::*;

use crate::chars::str_eq;
use crate::chunk::{prepare, tokens_of, utf8_len, views_of, CHUNK_LIMIT};
use crate::sanitize::sanitize_spec;
use crate::wire::{
    audio_append_event, audio_append_event_json, commit_event, commit_event_json,
    text_append_event, text_append_event_json,
};

verus! {

broadcast use vstd::string::group_string_axioms;

/// Whether a text is a well-formed JSON document; `serde_json`'s parser
/// decides it.
pub uninterp spec fn json_parses(s: Seq<char>) -> bool;

/// The string at a top-level key of the JSON document a text parses to:
/// the characters of that string when the text parses, the key is present
/// and its value is a string; nothing otherwise. A deterministic function
/// of the text and the key, decided by `serde_json`.
pub uninterp spec fn json_str_field_of(s: Seq<char>, key: Seq<char>) -> Option<Seq<char>>;

/// Relies on `serde_json::from_str::<Value>`: whether the text parses as a
/// JSON document.
#[verifier::external_body]
fn json_well_formed(s: &str) -> (r: bool)
    ensures
        r == json_parses(s@),
{
    serde_json::from_str::<serde_json::Value>(s).is_ok()
}

/// Relies on `serde_json::from_str::<Value>`, `Value::get` and
/// `Value::as_str`: parses the payload and hands back the string at the
/// given top-level key, when there is one.
#[verifier::external_body]
fn json_str_field(payload: &str, key: &str) -> (r: Option<String>)
    ensures
        r matches Some(x) ==> json_str_field_of(payload@, key@) matches Some(v) && x@ == v,
        r is None ==> json_str_field_of(payload@, key@) is None,
{
    match serde_json::from_str::<serde_json::Value>(payload) {
        Ok(v) => match v.get(key) {
            Some(x) => x.as_str().map(|t| t.to_string()),
            None => None,
        },
        Err(_) => None,
    }
}

/// The standard base64 text (with padding) of a byte sequence.
pub uninterp spec fn b64_of(data: Seq<u8>) -> Seq<char>;

/// What standard base64 decoding yields of a text: the bytes, when the text
/// is valid base64, and nothing otherwise.
pub uninterp spec fn b64_decoded(s: Seq<char>) -> Option<Seq<u8>>;

/// Relies on base64's `STANDARD` engine `encode`: the deterministic base64
/// text of the input bytes; an empty input encodes to an empty text.
#[verifier::external_body]
fn b64_encode(data: &Vec<u8>) -> (r: String)
    ensures
        r@ == b64_of(data@),
        data@.len() == 0 ==> r@.len() == 0,
{
    base64::Engine::encode(&base64::engine::general_purpose::STANDARD, data)
}

/// Relies on base64's `STANDARD` engine `decode`: recovers the bytes exactly
/// when the text is valid padded base64.
#[verifier::external_body]
fn b64_decode(s: &str) -> (r: Option<Vec<u8>>)
    ensures
        r is Some <==> b64_decoded(s@) is Some,
        r matches Some(b) ==> b64_decoded(s@) matches Some(d) && b@ == d,
{
    base64::Engine::decode(&base64::engine::general_purpose::STANDARD, s).ok()
}

/// A lowercase hexadecimal digit.
pub open spec fn is_hex_lower(c: char) -> bool {
    let u = c as u32;
    (0x30 <= u && u <= 0x39) || (0x61 <= u && u <= 0x66)
}

/// An event id as this gateway generates them: the hyphenated lowercase
/// form of a version-7 UUID — five groups of hex digits (8-4-4-4-12), with
/// the version nibble `7` and an RFC variant nibble.
pub open spec fn is_event_id(id: Seq<char>) -> bool {
    &&& id.len() == 36
    &&& id[8] == '-' && id[13] == '-' && id[18] == '-' && id[23] == '-'
    &&& forall|i: int|
        0 <= i < 36 && i != 8 && i != 13 && i != 18 && i != 23 ==> is_hex_lower(#[trigger] id[i])
    &&& id[14] == '7'
    &&& (id[19] == '8' || id[19] == '9' || id[19] == 'a' || id[19] == 'b')
}

/// Relies on `uuid::Uuid::now_v7` and its display form: a fresh time-ordered
/// version-7 identifier, rendered in the 36-character hyphenated lowercase
/// representation, whose version nibble is `7` and whose variant nibble is
/// one of `8`, `9`, `a`, `b`. The call can fail only environmentally — a
/// system clock before the Unix epoch, or a failing OS entropy source —
/// never from any input of this library.
#[verifier::external_body]
pub(crate) fn fresh_event_id() -> (r: String)
    ensures
        is_event_id(r@),
{
    uuid::Uuid::now_v7().to_string()
}

/// What one upstream payload leads to, after classification by its
/// discriminator.
#[derive(Debug, PartialEq, Eq)]
pub enum UpstreamDisposition {
    /// Incremental transcript text, forwarded to the client as a text frame.
    ForwardText(String),
    /// Decoded audio, forwarded to the client as a binary frame.
    ForwardAudio(Vec<u8>),
    /// The payload was not JSON: warn and discard.
    Malformed,
    /// A known discriminator whose payload field is absent: discard.
    MissingField,
    /// An audio delta whose base64 payload does not decode: log and discard.
    BadEncoding,
    /// A transcription-failed report: log, forward nothing.
    Failure,
    /// An upstream error report: log, forward nothing.
    UpstreamError,
    /// Any other discriminator: ignore.
    Unknown,
}

/// Exactly the disposition a transcription session owes for a payload,
/// stated over the extraction names: transcript text is forwarded verbatim,
/// a transcript event without its text is discarded, failure and error
/// reports are reported and not forwarded, everything else is ignored, and
/// what does not parse is malformed.
pub open spec fn transcription_disposition_ok(payload: Seq<char>, d: UpstreamDisposition) -> bool {
    if !json_parses(payload) {
        d is Malformed
    } else {
        match json_str_field_of(payload, "type"@) {
            Some(t) => if t == "conversation.item.input_audio_transcription.text"@ {
                match json_str_field_of(payload, "text"@) {
                    Some(x) => d matches UpstreamDisposition::ForwardText(y) && y@ == x,
                    None => d is MissingField,
                }
            } else if t == "conversation.item.input_audio_transcription.failed"@ {
                d is Failure
            } else if t == "error"@ {
                d is UpstreamError
            } else {
                d is Unknown
            },
            None => d is Unknown,
        }
    }
}

/// Exactly the disposition a synthesis session owes for a payload, stated
/// over the extraction and decode names: a decodable audio delta is
/// forwarded as its decoded bytes, an undecodable one is a decode failure,
/// a delta event without its payload is discarded, everything else is
/// ignored, and what does not parse is malformed.
pub open spec fn synthesis_disposition_ok(payload: Seq<char>, d: UpstreamDisposition) -> bool {
    if !json_parses(payload) {
        d is Malformed
    } else {
        match json_str_field_of(payload, "type"@) {
            Some(t) => if t == "response.audio.delta"@ {
                match json_str_field_of(payload, "delta"@) {
                    Some(x) => match b64_decoded(x) {
                        Some(bytes) => d matches UpstreamDisposition::ForwardAudio(b) && b@
                            == bytes,
                        None => d is BadEncoding,
                    },
                    None => d is MissingField,
                }
            } else {
                d is Unknown
            },
            None => d is Unknown,
        }
    }
}

/// Classifies one transcription-session payload from its parse outcome and
/// its extracted `type` and `text` fields.
pub fn classify_transcription_fields(
    parsed: bool,
    typ: &Option<String>,
    text: &Option<String>,
) -> (d: UpstreamDisposition)
    ensures
        !parsed ==> d is Malformed,
        parsed ==> (typ matches Some(t) && t@
            == "conversation.item.input_audio_transcription.text"@ ==> (text matches Some(x)
            ==> d matches UpstreamDisposition::ForwardText(y) && y@ == x@)),
        parsed ==> (typ matches Some(t) && t@
            == "conversation.item.input_audio_transcription.text"@ && text is None
            ==> d is MissingField),
        parsed ==> (typ matches Some(t) && t@
            == "conversation.item.input_audio_transcription.failed"@ ==> d is Failure),
        parsed ==> (typ matches Some(t) && t@ == "error"@ ==> d is UpstreamError),
        parsed ==> (typ matches Some(t) && t@
            != "conversation.item.input_audio_transcription.text"@ && t@
            != "conversation.item.input_audio_transcription.failed"@ && t@ != "error"@ ==> d
            is Unknown),
        parsed && typ is None ==> d is Unknown,
        !(d is ForwardAudio),
        !(d is BadEncoding),
{
    proof {
        reveal_strlit("conversation.item.input_audio_transcription.text");
        reveal_strlit("conversation.item.input_audio_transcription.failed");
        reveal_strlit("error");
        assert("conversation.item.input_audio_transcription.text"@.len() == 48);
        assert("conversation.item.input_audio_transcription.failed"@.len() == 50);
        assert("error"@.len() == 5);
    }
    if !parsed {
        return UpstreamDisposition::Malformed;
    }
    match typ {
        Some(t) => {
            if str_eq(t.as_str(), "conversation.item.input_audio_transcription.text") {
                match text {
                    Some(x) => UpstreamDisposition::ForwardText(x.clone()),
                    None => UpstreamDisposition::MissingField,
                }
            } else if str_eq(t.as_str(), "conversation.item.input_audio_transcription.failed") {
                UpstreamDisposition::Failure
            } else if str_eq(t.as_str(), "error") {
                UpstreamDisposition::UpstreamError
            } else {
                UpstreamDisposition::Unknown
            }
        },
        None => UpstreamDisposition::Unknown,
    }
}

/// Classifies one synthesis-session payload from its parse outcome and its
/// extracted `type` and `delta` fields, decoding the audio payload.
pub fn classify_synthesis_fields(
    parsed: bool,
    typ: &Option<String>,
    delta: &Option<String>,
) -> (d: UpstreamDisposition)
    ensures
        !parsed ==> d is Malformed,
        parsed && typ is None ==> d is Unknown,
        parsed ==> (typ matches Some(t) && t@ != "response.audio.delta"@ ==> d is Unknown),
        parsed ==> (typ matches Some(t) && t@ == "response.audio.delta"@ && delta is None ==> d
            is MissingField),
        parsed ==> (typ matches Some(t) && t@ == "response.audio.delta"@ ==> (delta matches Some(
            x,
        ) ==> (b64_decoded(x@) matches Some(bytes)
            ==> d matches UpstreamDisposition::ForwardAudio(b) && b@ == bytes))),
        parsed ==> (typ matches Some(t) && t@ == "response.audio.delta"@ ==> (delta matches Some(
            x,
        ) && b64_decoded(x@) is None ==> d is BadEncoding)),
        !(d is ForwardText),
        !(d is Failure),
{
    if !parsed {
        return UpstreamDisposition::Malformed;
    }
    match typ {
        Some(t) => {
            if str_eq(t.as_str(), "response.audio.delta") {
                match delta {
                    Some(x) => match b64_decode(x.as_str()) {
                        Some(bytes) => UpstreamDisposition::ForwardAudio(bytes),
                        None => UpstreamDisposition::BadEncoding,
                    },
                    None => UpstreamDisposition::MissingField,
                }
            } else {
                UpstreamDisposition::Unknown
            }
        },
        None => UpstreamDisposition::Unknown,
    }
}

/// Parses one transcription-session upstream payload and classifies it:
/// the result is exactly what [`transcription_disposition_ok`] owes for the
/// payload.
pub fn transcription_disposition(payload: &str) -> (d: UpstreamDisposition)
    ensures
        transcription_disposition_ok(payload@, d),
        !(d is ForwardAudio),
        !(d is BadEncoding),
{
    if !json_well_formed(payload) {
        return UpstreamDisposition::Malformed;
    }
    let typ = json_str_field(payload, "type");
    let text = json_str_field(payload, "text");
    classify_transcription_fields(true, &typ, &text)
}

/// Parses one synthesis-session upstream payload and classifies it: the
/// result is exactly what [`synthesis_disposition_ok`] owes for the
/// payload.
pub fn synthesis_disposition(payload: &str) -> (d: UpstreamDisposition)
    ensures
        synthesis_disposition_ok(payload@, d),
        !(d is ForwardText),
        !(d is Failure),
{
    if !json_well_formed(payload) {
        return UpstreamDisposition::Malformed;
    }
    let typ = json_str_field(payload, "type");
    let delta = json_str_field(payload, "delta");
    classify_synthesis_fields(true, &typ, &delta)
}

/// Wraps one binary client frame for the transcription path: the audio is
/// base64-encoded into a fresh `input_audio_buffer.append` event.
pub fn audio_append_message(audio: &Vec<u8>) -> (r: String)
    ensures
        exists|id: Seq<char>|
            is_event_id(id) && r@ == audio_append_event_json(id, b64_of(audio@)),
{
    let id = fresh_event_id();
    let encoded = b64_encode(audio);
    let r = audio_append_event(id.as_str(), encoded.as_str());
    proof {
        assert(is_event_id(id@) && r@ == audio_append_event_json(id@, b64_of(audio@)));
    }
    r
}

/// The chunks the preparation pipeline yields for a text.
pub open spec fn chunk_seqs(t: Seq<char>) -> Seq<Seq<char>> {
    if utf8_len(t) > CHUNK_LIMIT {
        tokens_of(t)
    } else {
        seq![t]
    }
}

/// Wraps one text client frame for the synthesis path: each prepared chunk
/// becomes an `input_text_buffer.append` event under a fresh id, followed by
/// a single `input_text_buffer.commit`.
pub fn synthesis_messages(text: &str) -> (msgs: Vec<String>)
    ensures
        msgs@.len() == chunk_seqs(sanitize_spec(text@)).len() + 1,
        forall|i: int|
            0 <= i < msgs@.len() - 1 ==> exists|id: Seq<char>|
                is_event_id(id) && (#[trigger] msgs@[i])@ == text_append_event_json(
                    id,
                    chunk_seqs(sanitize_spec(text@))[i],
                ),
        exists|id: Seq<char>|
            is_event_id(id) && msgs@[msgs@.len() - 1]@ == commit_event_json(id),
{
    let ghost t = sanitize_spec(text@);
    let chunks = prepare(text);
    proof {
        if utf8_len(t) > CHUNK_LIMIT {
            assert(views_of(chunks@) == tokens_of(t));
            assert(chunks@.len() == chunk_seqs(t).len());
            assert(forall|j: int|
                0 <= j < chunks@.len() ==> (#[trigger] chunks@[j])@ == chunk_seqs(t)[j]);
        } else {
            assert(chunks@.len() == chunk_seqs(t).len());
            assert(forall|j: int|
                0 <= j < chunks@.len() ==> (#[trigger] chunks@[j])@ == chunk_seqs(t)[j]);
        }
    }
    let mut msgs: Vec<String> = Vec::new();
    let mut i: usize = 0;
    while i < chunks.len()
        invariant
            i <= chunks.len(),
            chunks@.len() == chunk_seqs(t).len(),
            forall|j: int| 0 <= j < chunks@.len() ==> (#[trigger] chunks@[j])@ == chunk_seqs(t)[j],
            msgs@.len() == i,
            forall|j: int|
                0 <= j < i ==> exists|id: Seq<char>|
                    is_event_id(id) && (#[trigger] msgs@[j])@ == text_append_event_json(
                        id,
                        chunk_seqs(t)[j],
                    ),
        decreases chunks.len() - i,
    {
        let id = fresh_event_id();
        let m = text_append_event(id.as_str(), chunks[i].as_str());
        proof {
            assert(is_event_id(id@) && m@ == text_append_event_json(id@, chunk_seqs(t)[i as int]));
        }
        msgs.push(m);
        i = i + 1;
    }
    let id = fresh_event_id();
    let c = commit_event(id.as_str());
    proof {
        assert(is_event_id(id@) && c@ == commit_event_json(id@));
    }
    msgs.push(c);
    msgs
}

} // verus!
