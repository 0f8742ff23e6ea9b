//! The generic proxy paths' data rules.
//!
//! Two collaborator endpoints surround the realtime bridge: an HTTP
//! reverse-proxy that forwards arbitrary requests to a fixed upstream base,
//! and a raw WebSocket passthrough with no payload translation. Their only
//! logic — which hop-by-hop and CORS headers are stripped, how the target
//! URL is formed, and how frames are relayed — is computed here; the
//! streaming itself lives with the caller.

use vstd::prelude::*;
use vstd::string::StringExecFns;

use crate::bridge::{ClientFrame, UpstreamFrame};
use crate::chars::{push_char, str_chars, str_eq};

verus! {

/// ASCII lowercasing of one character.
pub open spec fn lower_char(c: char) -> char {
    if 0x41 <= (c as u32) && (c as u32) <= 0x5A {
        ((c as u32 + 32) as u8) as char
    } else {
        c
    }
}

/// ASCII lowercasing of a text.
pub open spec fn lower_seq(s: Seq<char>) -> Seq<char> {
    Seq::new(s.len(), |i: int| lower_char(s[i]))
}

fn to_ascii_lower(s: &str) -> (r: String)
    ensures
        r@ == lower_seq(s@),
{
    let v = str_chars(s);
    let mut r = String::new();
    let mut i: usize = 0;
    while i < v.len()
        invariant
            i <= v.len(),
            v@ == s@,
            r@.len() == i,
            forall|j: int| 0 <= j < i ==> r@[j] == lower_char(s@[j]),
        decreases v.len() - i,
    {
        let c = v[i];
        let u = c as u32;
        if 0x41 <= u && u <= 0x5A {
            push_char(&mut r, ((u + 32) as u8) as char);
        } else {
            push_char(&mut r, c);
        }
        i = i + 1;
    }
    proof {
        assert(r@ =~= lower_seq(s@));
    }
    r
}

/// The hop-by-hop and origin headers stripped from proxied requests,
/// compared case-insensitively.
pub open spec fn blocked_request_header(name: Seq<char>) -> bool {
    let n = lower_seq(name);
    ||| n == "host"@
    ||| n == "connection"@
    ||| n == "te"@
    ||| n == "trailer"@
    ||| n == "transfer-encoding"@
    ||| n == "upgrade"@
    ||| n == "origin"@
    ||| n == "referer"@
}

/// The hop-by-hop and CORS headers stripped from proxied responses,
/// compared case-insensitively.
pub open spec fn blocked_response_header(name: Seq<char>) -> bool {
    let n = lower_seq(name);
    ||| n == "connection"@
    ||| n == "te"@
    ||| n == "trailer"@
    ||| n == "transfer-encoding"@
    ||| n == "upgrade"@
    ||| n == "access-control-allow-origin"@
    ||| n == "access-control-allow-methods"@
    ||| n == "access-control-allow-headers"@
    ||| n == "access-control-allow-credentials"@
    ||| n == "access-control-expose-headers"@
    ||| n == "access-control-max-age"@
}

/// Decides whether a request header is stripped before forwarding.
pub fn is_blocked_request_header(name: &str) -> (b: bool)
    ensures
        b == blocked_request_header(name@),
{
    let n = to_ascii_lower(name);
    let s = n.as_str();
    str_eq(s, "host") || str_eq(s, "connection") || str_eq(s, "te") || str_eq(s, "trailer")
        || str_eq(s, "transfer-encoding") || str_eq(s, "upgrade") || str_eq(s, "origin") || str_eq(
        s,
        "referer",
    )
}

/// Decides whether a response header is stripped before it reaches the
/// caller.
pub fn is_blocked_response_header(name: &str) -> (b: bool)
    ensures
        b == blocked_response_header(name@),
{
    let n = to_ascii_lower(name);
    let s = n.as_str();
    str_eq(s, "connection") || str_eq(s, "te") || str_eq(s, "trailer") || str_eq(
        s,
        "transfer-encoding",
    ) || str_eq(s, "upgrade") || str_eq(s, "access-control-allow-origin") || str_eq(
        s,
        "access-control-allow-methods",
    ) || str_eq(s, "access-control-allow-headers") || str_eq(
        s,
        "access-control-allow-credentials",
    ) || str_eq(s, "access-control-expose-headers") || str_eq(s, "access-control-max-age")
}

/// The target of a proxied HTTP request: the fixed upstream base, the
/// caller's path, and the caller's query when one was given.
pub open spec fn compatible_mode_url_spec(path: Seq<char>, query: Option<Seq<char>>) -> Seq<char> {
    let base = "https://dashscope.aliyuncs.com/compatible-mode/v1/"@ + path;
    match query {
        Some(q) => base + seq!['?'] + q,
        None => base,
    }
}

/// Builds the target URL of a proxied HTTP request.
pub fn compatible_mode_url(path: &str, query: &Option<String>) -> (r: String)
    ensures
        query matches Some(q) ==> r@ == compatible_mode_url_spec(path@, Some(q@)),
        query is None ==> r@ == compatible_mode_url_spec(path@, None),
{
    let mut r = String::from_str("https://dashscope.aliyuncs.com/compatible-mode/v1/");
    r.append(path);
    match query {
        Some(q) => {
            push_char(&mut r, '?');
            r.append(q.as_str());
            proof {
                assert(r@ =~= compatible_mode_url_spec(path@, Some(q@)));
            }
        },
        None => {
            proof {
                assert(r@ =~= compatible_mode_url_spec(path@, None));
            }
        },
    }
    r
}

/// The target of a passthrough WebSocket connection.
pub open spec fn websocket_api_url_spec(path: Seq<char>, query: Option<Seq<char>>) -> Seq<char> {
    let base = "wss://dashscope.aliyuncs.com/api-ws/v1/"@ + path;
    match query {
        Some(q) => base + seq!['?'] + q,
        None => base,
    }
}

/// Builds the target URL of a passthrough WebSocket connection.
pub fn websocket_api_url(path: &str, query: &Option<String>) -> (r: String)
    ensures
        query matches Some(q) ==> r@ == websocket_api_url_spec(path@, Some(q@)),
        query is None ==> r@ == websocket_api_url_spec(path@, None),
{
    let mut r = String::from_str("wss://dashscope.aliyuncs.com/api-ws/v1/");
    r.append(path);
    match query {
        Some(q) => {
            push_char(&mut r, '?');
            r.append(q.as_str());
            proof {
                assert(r@ =~= websocket_api_url_spec(path@, Some(q@)));
            }
        },
        None => {
            proof {
                assert(r@ =~= websocket_api_url_spec(path@, None));
            }
        },
    }
    r
}

/// A data frame relayed unchanged by the passthrough.
#[derive(Debug, PartialEq, Eq)]
pub enum RelayFrame {
    Text(String),
    Binary(Vec<u8>),
    Ping(Vec<u8>),
    Pong(Vec<u8>),
}

/// What the passthrough does with one received frame.
#[derive(Debug, PartialEq, Eq)]
pub enum RelayAction {
    /// Forward this frame unchanged to the opposite transport.
    Forward(RelayFrame),
    /// Send a close frame with no payload and end the loop.
    CloseOut,
    /// Ignore the frame.
    Drop,
}

/// One step of the passthrough's client-to-upstream loop: every data frame
/// is forwarded unchanged; a close frame becomes a bare upstream close and
/// ends the loop.
pub fn passthrough_client_step(frame: ClientFrame) -> (r: (RelayAction, bool))
    ensures
        frame matches ClientFrame::Text(s) ==> r.1 && r.0 == RelayAction::Forward(
            RelayFrame::Text(s),
        ),
        frame matches ClientFrame::Binary(d) ==> r.1 && r.0 == RelayAction::Forward(
            RelayFrame::Binary(d),
        ),
        frame matches ClientFrame::Ping(d) ==> r.1 && r.0 == RelayAction::Forward(
            RelayFrame::Ping(d),
        ),
        frame matches ClientFrame::Pong(d) ==> r.1 && r.0 == RelayAction::Forward(
            RelayFrame::Pong(d),
        ),
        frame is Close ==> !r.1 && r.0 is CloseOut,
{
    match frame {
        ClientFrame::Text(s) => (RelayAction::Forward(RelayFrame::Text(s)), true),
        ClientFrame::Binary(d) => (RelayAction::Forward(RelayFrame::Binary(d)), true),
        ClientFrame::Ping(d) => (RelayAction::Forward(RelayFrame::Ping(d)), true),
        ClientFrame::Pong(d) => (RelayAction::Forward(RelayFrame::Pong(d)), true),
        ClientFrame::Close => (RelayAction::CloseOut, false),
    }
}

/// One step of the passthrough's upstream-to-client loop: data frames are
/// forwarded unchanged, raw frames are ignored, and a close frame becomes a
/// bare close to the client and ends the loop.
pub fn passthrough_upstream_step(frame: UpstreamFrame) -> (r: (RelayAction, bool))
    ensures
        frame matches UpstreamFrame::Text(s) ==> r.1 && r.0 == RelayAction::Forward(
            RelayFrame::Text(s),
        ),
        frame matches UpstreamFrame::Binary(d) ==> r.1 && r.0 == RelayAction::Forward(
            RelayFrame::Binary(d),
        ),
        frame matches UpstreamFrame::Ping(d) ==> r.1 && r.0 == RelayAction::Forward(
            RelayFrame::Ping(d),
        ),
        frame matches UpstreamFrame::Pong(d) ==> r.1 && r.0 == RelayAction::Forward(
            RelayFrame::Pong(d),
        ),
        frame is Close ==> !r.1 && r.0 is CloseOut,
        frame is Raw ==> r.1 && r.0 is Drop,
{
    match frame {
        UpstreamFrame::Text(s) => (RelayAction::Forward(RelayFrame::Text(s)), true),
        UpstreamFrame::Binary(d) => (RelayAction::Forward(RelayFrame::Binary(d)), true),
        UpstreamFrame::Ping(d) => (RelayAction::Forward(RelayFrame::Ping(d)), true),
        UpstreamFrame::Pong(d) => (RelayAction::Forward(RelayFrame::Pong(d)), true),
        UpstreamFrame::Close(_) => (RelayAction::CloseOut, false),
        UpstreamFrame::Raw => (RelayAction::Drop, true),
    }
}

} // verus!
