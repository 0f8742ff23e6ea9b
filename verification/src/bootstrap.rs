//! Upstream session bootstrap.
//!
//! Before any forwarding starts, a session opens one upstream WebSocket
//! connection: a fixed endpoint with query parameters selecting the model
//! variant (and, for synthesis, the voice), a bearer authorization header,
//! and — for transcription — one capability-negotiation header. The first
//! and only configuration event, `session.update`, is sent right after the
//! handshake. Everything about that request except the socket itself is
//! computed and pinned down here; opening the transport, and the short
//! settle delay after the configuration event, are the caller's side.

use vstd::prelude::*;
use vstd::string::StringExecFns;

use crate::translate::is_event_id;
use crate::wire::{
    session_update_synthesis, session_update_synthesis_json, session_update_transcription,
    session_update_transcription_json,
};

verus! {

/// The best-effort settle delay after `session.update`, in milliseconds.
pub const SESSION_SETTLE_MS: u64 = 100;

/// Query parameters of the synthesis endpoint.
#[derive(Debug)]
pub struct TtsRealtimeQuery {
    pub voice: String,
}

/// The x-www-form-urlencoded serialization of a text's UTF-8 bytes.
pub uninterp spec fn form_encoded_of(s: Seq<char>) -> Seq<char>;

/// Relies on the `url` crate's form_urlencoded byte serializer — the same
/// serializer its query-pair writer uses — to percent-encode a query value.
#[verifier::external_body]
fn form_urlencode(s: &str) -> (r: String)
    ensures
        r@ == form_encoded_of(s@),
{
    url::form_urlencoded::byte_serialize(s.as_bytes()).collect()
}

/// The upstream URL of a transcription session.
pub open spec fn transcription_url_spec() -> Seq<char> {
    "wss://dashscope.aliyuncs.com/api-ws/v1/realtime?model=qwen3-asr-flash-realtime"@
}

/// The upstream URL of a synthesis session, with the voice as an encoded
/// query value.
pub open spec fn synthesis_url_spec(voice: Seq<char>) -> Seq<char> {
    "wss://dashscope.aliyuncs.com/api-ws/v1/realtime?model=qwen3-tts-flash-realtime&voice="@
        + form_encoded_of(voice)
}

/// The bearer authorization value derived from the configured credential.
pub open spec fn bearer_value_spec(key: Seq<char>) -> Seq<char> {
    "Bearer "@ + key
}

/// Builds the bearer authorization value for a credential.
pub fn bearer_header_value(key: &str) -> (r: String)
    ensures
        r@ == bearer_value_spec(key@),
{
    let mut r = String::new();
    r.append("Bearer ");
    r.append(key);
    proof {
        assert(r@ =~= bearer_value_spec(key@));
    }
    r
}

/// Everything of the upstream connection request that is plain data: the
/// URL, the headers to set, and the one configuration event to send after
/// the handshake.
pub struct ConnectPlan {
    pub url: String,
    pub headers: Vec<(String, String)>,
    pub init_event: String,
}

/// Plans a transcription session: the transcription model variant, the
/// bearer credential, the capability-negotiation header, and a
/// `session.update` selecting text output over 16 kHz PCM input with
/// server-driven voice activity detection.
pub fn plan_transcription_session(api_key: &str) -> (p: ConnectPlan)
    ensures
        p.url@ == transcription_url_spec(),
        p.headers@.len() == 2,
        p.headers@[0].0@ == "Authorization"@,
        p.headers@[0].1@ == bearer_value_spec(api_key@),
        p.headers@[1].0@ == "OpenAI-Beta"@,
        p.headers@[1].1@ == "realtime=v1"@,
        exists|id: Seq<char>|
            is_event_id(id) && p.init_event@ == session_update_transcription_json(id),
{
    let url = String::from_str(
        "wss://dashscope.aliyuncs.com/api-ws/v1/realtime?model=qwen3-asr-flash-realtime",
    );
    let mut headers: Vec<(String, String)> = Vec::new();
    headers.push((String::from_str("Authorization"), bearer_header_value(api_key)));
    headers.push((String::from_str("OpenAI-Beta"), String::from_str("realtime=v1")));
    let id = crate::translate::fresh_event_id();
    let init_event = session_update_transcription(id.as_str());
    proof {
        assert(is_event_id(id@) && init_event@ == session_update_transcription_json(id@));
    }
    ConnectPlan { url, headers, init_event }
}

/// Plans a synthesis session: the synthesis model variant with the requested
/// voice, the bearer credential, and a `session.update` selecting 24 kHz PCM
/// output in that voice.
pub fn plan_synthesis_session(api_key: &str, query: &TtsRealtimeQuery) -> (p: ConnectPlan)
    ensures
        p.url@ == synthesis_url_spec(query.voice@),
        p.headers@.len() == 1,
        p.headers@[0].0@ == "Authorization"@,
        p.headers@[0].1@ == bearer_value_spec(api_key@),
        exists|id: Seq<char>|
            is_event_id(id) && p.init_event@ == session_update_synthesis_json(id, query.voice@),
{
    let mut url = String::from_str(
        "wss://dashscope.aliyuncs.com/api-ws/v1/realtime?model=qwen3-tts-flash-realtime&voice=",
    );
    let encoded = form_urlencode(query.voice.as_str());
    url.append(encoded.as_str());
    proof {
        assert(url@ =~= synthesis_url_spec(query.voice@));
    }
    let mut headers: Vec<(String, String)> = Vec::new();
    headers.push((String::from_str("Authorization"), bearer_header_value(api_key)));
    let id = crate::translate::fresh_event_id();
    let init_event = session_update_synthesis(id.as_str(), query.voice.as_str());
    proof {
        assert(is_event_id(id@) && init_event@ == session_update_synthesis_json(id@, query.voice@));
    }
    ConnectPlan { url, headers, init_event }
}

} // verus!
