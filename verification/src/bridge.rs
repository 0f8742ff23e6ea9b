//! The duplex bridge's per-session decisions.
//!
//! A session runs two concurrent forwarding loops — client to upstream and
//! upstream to client — and ends the moment either loop ends. The loops'
//! I/O lives with the caller; every decision they make is a function here
//! from one received frame to the action to perform and whether the loop
//! goes on, with the owed action pinned down exactly by a spec predicate
//! per direction. The session lifecycle is the three-phase machine
//! `Connecting → Bridging → Closed`, with `Closed` terminal.

use vstd::prelude::*;

use crate::sanitize::sanitize_spec;
use crate::translate::{
    audio_append_message, b64_decoded, b64_of, chunk_seqs, is_event_id, json_parses,
    json_str_field_of, synthesis_disposition, synthesis_messages, transcription_disposition,
    UpstreamDisposition,
};
use crate::wire::{audio_append_event_json, commit_event_json, text_append_event_json};

verus! {

/// The fixed pacing delay between successive text-append events, in
/// milliseconds.
pub const CHUNK_PACING_MS: u64 = 200;

/// The lifecycle of one session. `Closed` is terminal: there is no
/// reconnection and no resumption.
#[derive(Debug, PartialEq, Eq, Clone, Copy)]
pub enum SessionPhase {
    Connecting,
    Bridging,
    Closed,
}

/// What moves the lifecycle: the bootstrap's outcome, or the end of either
/// forwarding loop (normal close, transport error, or upstream disconnect).
#[derive(Debug, PartialEq, Eq, Clone, Copy)]
pub enum SessionEvent {
    ConnectSucceeded,
    ConnectFailed,
    LoopEnded,
}

/// The session lifecycle step. Either loop ending closes the session — the
/// race is first-completion-wins, so a clean end on one side ends the whole
/// bridge even while the other side is still blocked — and `Closed` never
/// leaves.
pub fn phase_step(p: SessionPhase, ev: SessionEvent) -> (q: SessionPhase)
    ensures
        p is Connecting && ev is ConnectSucceeded ==> q is Bridging,
        p is Connecting && ev is ConnectFailed ==> q is Closed,
        ev is LoopEnded ==> q is Closed,
        p is Closed ==> q is Closed,
        p is Bridging && ev is ConnectSucceeded ==> q == p,
        p is Bridging && ev is ConnectFailed ==> q == p,
{
    match ev {
        SessionEvent::LoopEnded => SessionPhase::Closed,
        SessionEvent::ConnectSucceeded => match p {
            SessionPhase::Connecting => SessionPhase::Bridging,
            SessionPhase::Bridging => SessionPhase::Bridging,
            SessionPhase::Closed => SessionPhase::Closed,
        },
        SessionEvent::ConnectFailed => match p {
            SessionPhase::Connecting => SessionPhase::Closed,
            SessionPhase::Bridging => SessionPhase::Bridging,
            SessionPhase::Closed => SessionPhase::Closed,
        },
    }
}

/// Close metadata of an upstream close frame, as plain values.
#[derive(Debug, PartialEq, Eq)]
pub struct CloseInfo {
    pub code: u16,
    pub reason: String,
}

/// A frame received from the client connection.
#[derive(Debug, PartialEq, Eq)]
pub enum ClientFrame {
    Text(String),
    Binary(Vec<u8>),
    Ping(Vec<u8>),
    Pong(Vec<u8>),
    Close,
}

/// A frame received from the upstream connection. `Raw` stands for the
/// transport's unassembled frame variant, which is never interpreted.
#[derive(Debug, PartialEq, Eq)]
pub enum UpstreamFrame {
    Text(String),
    Binary(Vec<u8>),
    Ping(Vec<u8>),
    Pong(Vec<u8>),
    Close(Option<CloseInfo>),
    Raw,
}

/// What the client-to-upstream loop does with one client frame.
#[derive(Debug, PartialEq, Eq)]
pub enum UpstreamAction {
    /// Send these event texts upstream, in order; the caller paces
    /// successive sends by [`CHUNK_PACING_MS`] on the synthesis path.
    SendEvents(Vec<String>),
    /// Send a close frame with no payload upstream.
    SendClose,
    /// Send nothing.
    Nothing,
}

/// What the upstream-to-client loop does with one upstream frame.
#[derive(Debug, PartialEq, Eq)]
pub enum ClientAction {
    /// Forward this text to the client unmodified.
    SendText(String),
    /// Forward these decoded audio bytes to the client as a binary frame.
    SendBinary(Vec<u8>),
    /// Translate a close frame, preserving its code and reason when given.
    SendClose(Option<CloseInfo>),
    /// Send nothing.
    Nothing,
}

/// The batch a synthesis text frame must produce: one `input_text_buffer.append`
/// per prepared chunk of the sanitized text, in order, then a single
/// `input_text_buffer.commit`, each under an event id.
pub open spec fn is_synthesis_batch(msgs: Seq<String>, t: Seq<char>) -> bool {
    &&& msgs.len() == chunk_seqs(t).len() + 1
    &&& forall|i: int|
        0 <= i < msgs.len() - 1 ==> exists|id: Seq<char>|
            is_event_id(id) && (#[trigger] msgs[i])@ == text_append_event_json(id, chunk_seqs(t)[i])
    &&& exists|id: Seq<char>| is_event_id(id) && msgs[msgs.len() - 1]@ == commit_event_json(id)
}

/// The batch a transcription binary frame must produce: exactly one
/// `input_audio_buffer.append` carrying the frame's base64, under an event
/// id.
pub open spec fn is_audio_batch(msgs: Seq<String>, data: Seq<u8>) -> bool {
    &&& msgs.len() == 1
    &&& exists|id: Seq<char>|
        is_event_id(id) && msgs[0]@ == audio_append_event_json(id, b64_of(data))
}

/// Exactly the action the synthesis client loop owes for one client frame:
/// a text frame becomes its batch of appends and commit, a close frame
/// becomes the upstream close, and everything else sends nothing.
pub open spec fn synthesis_client_action_ok(f: ClientFrame, a: UpstreamAction) -> bool {
    match f {
        ClientFrame::Text(s) => a matches UpstreamAction::SendEvents(msgs) && is_synthesis_batch(
            msgs@,
            sanitize_spec(s@),
        ),
        ClientFrame::Close => a is SendClose,
        _ => a is Nothing,
    }
}

/// Exactly the action the transcription client loop owes for one client
/// frame: a binary frame becomes its single audio append, a close frame
/// becomes the upstream close, and everything else sends nothing.
pub open spec fn transcription_client_action_ok(f: ClientFrame, a: UpstreamAction) -> bool {
    match f {
        ClientFrame::Binary(d) => a matches UpstreamAction::SendEvents(msgs) && is_audio_batch(
            msgs@,
            d@,
        ),
        ClientFrame::Close => a is SendClose,
        _ => a is Nothing,
    }
}

/// Exactly the action the transcription upstream loop owes for one text
/// payload, over the extraction names: the transcript text is forwarded
/// verbatim when the discriminator is the transcript one and the field is
/// present; nothing is sent in every other case.
pub open spec fn transcription_text_action_ok(payload: Seq<char>, a: ClientAction) -> bool {
    if !json_parses(payload) {
        a is Nothing
    } else {
        match json_str_field_of(payload, "type"@) {
            Some(t) => if t == "conversation.item.input_audio_transcription.text"@ {
                match json_str_field_of(payload, "text"@) {
                    Some(x) => a matches ClientAction::SendText(y) && y@ == x,
                    None => a is Nothing,
                }
            } else {
                a is Nothing
            },
            None => a is Nothing,
        }
    }
}

/// Exactly the action the synthesis upstream loop owes for one text
/// payload, over the extraction and decode names: the decoded audio delta
/// is forwarded as a binary frame when the discriminator matches, the
/// field is present and its base64 decodes; nothing is sent in every other
/// case.
pub open spec fn synthesis_text_action_ok(payload: Seq<char>, a: ClientAction) -> bool {
    if !json_parses(payload) {
        a is Nothing
    } else {
        match json_str_field_of(payload, "type"@) {
            Some(t) => if t == "response.audio.delta"@ {
                match json_str_field_of(payload, "delta"@) {
                    Some(x) => match b64_decoded(x) {
                        Some(bytes) => a matches ClientAction::SendBinary(b) && b@ == bytes,
                        None => a is Nothing,
                    },
                    None => a is Nothing,
                }
            } else {
                a is Nothing
            },
            None => a is Nothing,
        }
    }
}

/// One step of the transcription client-to-upstream loop: binary audio is
/// wrapped into an `input_audio_buffer.append` event; a close frame is
/// translated to an upstream close and ends the loop; text, ping and pong
/// frames are not part of this direction's protocol and are ignored.
pub fn transcription_client_step(frame: &ClientFrame) -> (r: (UpstreamAction, bool))
    ensures
        transcription_client_action_ok(*frame, r.0),
        r.1 <==> !(frame is Close),
{
    match frame {
        ClientFrame::Binary(d) => {
            let msg = audio_append_message(d);
            let ghost msg_view = msg@;
            let mut msgs: Vec<String> = Vec::new();
            msgs.push(msg);
            proof {
                let id = choose|id: Seq<char>|
                    is_event_id(id) && msg_view == audio_append_event_json(id, b64_of(d@));
                assert(msgs@[0]@ == audio_append_event_json(id, b64_of(d@)));
                assert(is_audio_batch(msgs@, d@));
            }
            (UpstreamAction::SendEvents(msgs), true)
        },
        ClientFrame::Close => (UpstreamAction::SendClose, false),
        _ => (UpstreamAction::Nothing, true),
    }
}

/// One step of the synthesis client-to-upstream loop: a text frame is
/// prepared and chunked, each chunk wrapped in an `input_text_buffer.append`
/// event, followed by one `input_text_buffer.commit`; a close frame is
/// translated to an upstream close and ends the loop; other frames are
/// ignored.
pub fn synthesis_client_step(frame: &ClientFrame) -> (r: (UpstreamAction, bool))
    ensures
        synthesis_client_action_ok(*frame, r.0),
        r.1 <==> !(frame is Close),
{
    match frame {
        ClientFrame::Text(s) => {
            let msgs = synthesis_messages(s.as_str());
            proof {
                assert(is_synthesis_batch(msgs@, sanitize_spec(s@)));
            }
            (UpstreamAction::SendEvents(msgs), true)
        },
        ClientFrame::Close => (UpstreamAction::SendClose, false),
        _ => (UpstreamAction::Nothing, true),
    }
}

/// One step of the transcription upstream-to-client loop: incremental
/// transcript text is forwarded unmodified; failures, errors, unknown
/// events and unparseable payloads forward nothing and the loop goes on; a
/// close frame is echoed with its metadata and ends the loop. This
/// direction never sends binary frames.
pub fn transcription_upstream_step(frame: UpstreamFrame) -> (r: (ClientAction, bool))
    ensures
        frame matches UpstreamFrame::Text(t) ==> r.1 && transcription_text_action_ok(t@, r.0),
        frame matches UpstreamFrame::Close(ci) ==> !r.1 && (r.0
            matches ClientAction::SendClose(cj) && cj == ci),
        frame is Binary || frame is Ping || frame is Pong || frame is Raw ==> r.0 is Nothing
            && r.1,
{
    match frame {
        UpstreamFrame::Text(t) => {
            match transcription_disposition(t.as_str()) {
                UpstreamDisposition::ForwardText(s) => (ClientAction::SendText(s), true),
                _ => (ClientAction::Nothing, true),
            }
        },
        UpstreamFrame::Close(ci) => (ClientAction::SendClose(ci), false),
        _ => (ClientAction::Nothing, true),
    }
}

/// One step of the synthesis upstream-to-client loop: decoded audio deltas
/// are forwarded as binary frames; everything else — parse failures,
/// missing fields, decode failures, unknown events — forwards nothing and
/// the loop goes on; a close frame is echoed with its metadata and ends the
/// loop. This direction never sends text frames.
pub fn synthesis_upstream_step(frame: UpstreamFrame) -> (r: (ClientAction, bool))
    ensures
        frame matches UpstreamFrame::Text(t) ==> r.1 && synthesis_text_action_ok(t@, r.0),
        frame matches UpstreamFrame::Close(ci) ==> !r.1 && (r.0
            matches ClientAction::SendClose(cj) && cj == ci),
        frame is Binary || frame is Ping || frame is Pong || frame is Raw ==> r.0 is Nothing
            && r.1,
{
    match frame {
        UpstreamFrame::Text(t) => {
            match synthesis_disposition(t.as_str()) {
                UpstreamDisposition::ForwardAudio(b) => (ClientAction::SendBinary(b), true),
                _ => (ClientAction::Nothing, true),
            }
        },
        UpstreamFrame::Close(ci) => (ClientAction::SendClose(ci), false),
        _ => (ClientAction::Nothing, true),
    }
}

/// A model of the client-to-upstream forwarding loop of a synthesis
/// session, run over a finite sequence of received frames: frames are
/// processed in order until a step ends the loop, each logged action is
/// exactly what the step owes for its frame, processing stops at the first
/// close frame — which contributes exactly one upstream close as the very
/// last action, so nothing is sent after it — and a run without a close
/// frame never sends a close upstream.
pub fn run_synthesis_client_loop(frames: &Vec<ClientFrame>) -> (log: Vec<UpstreamAction>)
    ensures
        log@.len() <= frames@.len(),
        forall|j: int|
            0 <= j < log@.len() ==> synthesis_client_action_ok(frames@[j], #[trigger] log@[j]),
        forall|j: int|
            0 <= j < log@.len() ==> ((#[trigger] log@[j]) is SendClose <==> frames@[j] is Close),
        forall|j: int| 0 <= j < log@.len() - 1 ==> !((#[trigger] frames@[j]) is Close),
        (exists|k: int| 0 <= k < frames@.len() && (#[trigger] frames@[k]) is Close) ==> log@.len()
            >= 1 && log@[log@.len() - 1] is SendClose,
        (forall|k: int| 0 <= k < frames@.len() ==> !((#[trigger] frames@[k]) is Close))
            ==> log@.len() == frames@.len(),
{
    let mut log: Vec<UpstreamAction> = Vec::new();
    let mut stopped = false;
    let mut i: usize = 0;
    while i < frames.len() && !stopped
        invariant
            i <= frames@.len(),
            log@.len() == i,
            forall|j: int|
                0 <= j < i ==> synthesis_client_action_ok(frames@[j], #[trigger] log@[j]),
            forall|j: int|
                0 <= j < i ==> ((#[trigger] log@[j]) is SendClose <==> frames@[j] is Close),
            !stopped ==> forall|j: int| 0 <= j < i ==> !((#[trigger] frames@[j]) is Close),
            stopped ==> i >= 1 && frames@[i - 1] is Close && (forall|j: int|
                0 <= j < i - 1 ==> !((#[trigger] frames@[j]) is Close)),
        decreases frames.len() - i,
    {
        let (a, go_on) = synthesis_client_step(&frames[i]);
        log.push(a);
        if !go_on {
            stopped = true;
        }
        i = i + 1;
    }
    log
}

/// The same loop model for a transcription session; the per-frame actions
/// and the close behavior are pinned alike.
pub fn run_transcription_client_loop(frames: &Vec<ClientFrame>) -> (log: Vec<UpstreamAction>)
    ensures
        log@.len() <= frames@.len(),
        forall|j: int|
            0 <= j < log@.len() ==> transcription_client_action_ok(frames@[j], #[trigger] log@[j]),
        forall|j: int|
            0 <= j < log@.len() ==> ((#[trigger] log@[j]) is SendClose <==> frames@[j] is Close),
        forall|j: int| 0 <= j < log@.len() - 1 ==> !((#[trigger] frames@[j]) is Close),
        (exists|k: int| 0 <= k < frames@.len() && (#[trigger] frames@[k]) is Close) ==> log@.len()
            >= 1 && log@[log@.len() - 1] is SendClose,
        (forall|k: int| 0 <= k < frames@.len() ==> !((#[trigger] frames@[k]) is Close))
            ==> log@.len() == frames@.len(),
{
    let mut log: Vec<UpstreamAction> = Vec::new();
    let mut stopped = false;
    let mut i: usize = 0;
    while i < frames.len() && !stopped
        invariant
            i <= frames@.len(),
            log@.len() == i,
            forall|j: int|
                0 <= j < i ==> transcription_client_action_ok(frames@[j], #[trigger] log@[j]),
            forall|j: int|
                0 <= j < i ==> ((#[trigger] log@[j]) is SendClose <==> frames@[j] is Close),
            !stopped ==> forall|j: int| 0 <= j < i ==> !((#[trigger] frames@[j]) is Close),
            stopped ==> i >= 1 && frames@[i - 1] is Close && (forall|j: int|
                0 <= j < i - 1 ==> !((#[trigger] frames@[j]) is Close)),
        decreases frames.len() - i,
    {
        let (a, go_on) = transcription_client_step(&frames[i]);
        log.push(a);
        if !go_on {
            stopped = true;
        }
        i = i + 1;
    }
    log
}

} // verus!
