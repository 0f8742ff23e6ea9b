//! The upstream JSON event wire format.
//!
//! Every outbound event is a small JSON object with a fixed shape, keyed by
//! its `type` discriminator and carrying a freshly generated event id. The
//! events are framed here directly, character by character, with JSON string
//! escaping proved correct, so that the exact bytes put on the wire are
//! pinned down by the specifications. Keys appear in sorted order.

use vstd::prelude::*;
use vstd::string::StringExecFns;

use crate::chars::{push_char, str_chars};

verus! {

/// The sixteen lowercase hexadecimal digits.
pub open spec fn hex_digit(n: int) -> char {
    if n == 0 {
        '0'
    } else if n == 1 {
        '1'
    } else if n == 2 {
        '2'
    } else if n == 3 {
        '3'
    } else if n == 4 {
        '4'
    } else if n == 5 {
        '5'
    } else if n == 6 {
        '6'
    } else if n == 7 {
        '7'
    } else if n == 8 {
        '8'
    } else if n == 9 {
        '9'
    } else if n == 10 {
        'a'
    } else if n == 11 {
        'b'
    } else if n == 12 {
        'c'
    } else if n == 13 {
        'd'
    } else if n == 14 {
        'e'
    } else {
        'f'
    }
}

fn hex_digit_char(n: u32) -> (c: char)
    requires
        n < 16,
    ensures
        c == hex_digit(n as int),
{
    if n == 0 {
        '0'
    } else if n == 1 {
        '1'
    } else if n == 2 {
        '2'
    } else if n == 3 {
        '3'
    } else if n == 4 {
        '4'
    } else if n == 5 {
        '5'
    } else if n == 6 {
        '6'
    } else if n == 7 {
        '7'
    } else if n == 8 {
        '8'
    } else if n == 9 {
        '9'
    } else if n == 10 {
        'a'
    } else if n == 11 {
        'b'
    } else if n == 12 {
        'c'
    } else if n == 13 {
        'd'
    } else if n == 14 {
        'e'
    } else {
        'f'
    }
}

/// The JSON escape of one character inside a string literal: quote and
/// backslash are escaped, the named control escapes are used for backspace,
/// form feed, line feed, carriage return and tab, any other control
/// character becomes a `\u00XX` escape, and everything else stands as is.
pub open spec fn esc_char(c: char) -> Seq<char> {
    if c == '"' {
        seq!['\\', '"']
    } else if c == '\\' {
        seq!['\\', '\\']
    } else if c == '\u{8}' {
        seq!['\\', 'b']
    } else if c == '\u{C}' {
        seq!['\\', 'f']
    } else if c == '\n' {
        seq!['\\', 'n']
    } else if c == '\r' {
        seq!['\\', 'r']
    } else if c == '\t' {
        seq!['\\', 't']
    } else if (c as u32) < 0x20 {
        seq!['\\', 'u', '0', '0', hex_digit((c as u32) as int / 16), hex_digit((c as u32) as int % 16)]
    } else {
        seq![c]
    }
}

/// JSON string-literal escaping of a whole sequence.
pub open spec fn json_escaped(s: Seq<char>) -> Seq<char>
    decreases s.len(),
{
    if s.len() == 0 {
        Seq::empty()
    } else {
        esc_char(s[0]) + json_escaped(s.skip(1))
    }
}

/// A JSON string literal: the escaped text between double quotes.
pub open spec fn quoted(s: Seq<char>) -> Seq<char> {
    seq!['"'] + json_escaped(s) + seq!['"']
}

fn append_json_escaped(out: &mut String, s: &str)
    ensures
        final(out)@ == old(out)@ + json_escaped(s@),
{
    let v = str_chars(s);
    let mut i: usize = 0;
    proof {
        assert(v@.skip(0) =~= v@);
        assert(old(out)@ + json_escaped(v@) =~= old(out)@ + json_escaped(v@));
    }
    while i < v.len()
        invariant
            i <= v.len(),
            old(out)@ + json_escaped(v@) == out@ + json_escaped(v@.skip(i as int)),
        decreases v.len() - i,
    {
        let ghost tail = v@.skip(i as int);
        let ghost out_prev = out@;
        let c = v[i];
        let u = c as u32;
        if c == '"' {
            push_char(out, '\\');
            push_char(out, '"');
        } else if c == '\\' {
            push_char(out, '\\');
            push_char(out, '\\');
        } else if c == '\u{8}' {
            push_char(out, '\\');
            push_char(out, 'b');
        } else if c == '\u{C}' {
            push_char(out, '\\');
            push_char(out, 'f');
        } else if c == '\n' {
            push_char(out, '\\');
            push_char(out, 'n');
        } else if c == '\r' {
            push_char(out, '\\');
            push_char(out, 'r');
        } else if c == '\t' {
            push_char(out, '\\');
            push_char(out, 't');
        } else if u < 0x20 {
            push_char(out, '\\');
            push_char(out, 'u');
            push_char(out, '0');
            push_char(out, '0');
            push_char(out, hex_digit_char(u / 16));
            push_char(out, hex_digit_char(u % 16));
        } else {
            push_char(out, c);
        }
        proof {
            assert(out@ =~= out_prev + esc_char(c));
            assert(tail.skip(1) =~= v@.skip(i + 1));
            assert(out_prev + (esc_char(c) + json_escaped(tail.skip(1))) =~= (out_prev + esc_char(
                c,
            )) + json_escaped(tail.skip(1)));
        }
        i = i + 1;
    }
    proof {
        assert(v@.skip(v@.len() as int) =~= Seq::<char>::empty());
        assert(json_escaped(Seq::<char>::empty()) == Seq::<char>::empty());
        assert(out@ + Seq::<char>::empty() =~= out@);
    }
}

fn append_quoted(out: &mut String, s: &str)
    ensures
        final(out)@ == old(out)@ + quoted(s@),
{
    push_char(out, '"');
    append_json_escaped(out, s);
    push_char(out, '"');
    proof {
        assert(out@ =~= old(out)@ + quoted(s@));
    }
}

/// The configuration event opening a transcription session: text modality,
/// 16 kHz PCM input, server-driven voice-activity detection.
pub open spec fn session_update_transcription_json(id: Seq<char>) -> Seq<char> {
    "{\"event_id\":"@ + quoted(id)
        + ",\"session\":{\"input_audio_format\":\"pcm\",\"modalities\":[\"text\"],\"sample_rate\":16000,\"turn_detection\":{\"type\":\"server_vad\"}},\"type\":\"session.update\"}"@
}

/// The configuration event opening a synthesis session: 24 kHz PCM output
/// with the requested voice.
pub open spec fn session_update_synthesis_json(id: Seq<char>, voice: Seq<char>) -> Seq<char> {
    "{\"event_id\":"@ + quoted(id) + ",\"session\":{\"response_format\":\"pcm\",\"sample_rate\":24000,\"voice\":"@
        + quoted(voice) + "},\"type\":\"session.update\"}"@
}

/// One buffered audio append carrying base64 audio.
pub open spec fn audio_append_event_json(id: Seq<char>, audio_b64: Seq<char>) -> Seq<char> {
    "{\"audio\":"@ + quoted(audio_b64) + ",\"event_id\":"@ + quoted(id)
        + ",\"type\":\"input_audio_buffer.append\"}"@
}

/// One buffered text append carrying a prepared chunk.
pub open spec fn text_append_event_json(id: Seq<char>, text: Seq<char>) -> Seq<char> {
    "{\"event_id\":"@ + quoted(id) + ",\"text\":"@ + quoted(text)
        + ",\"type\":\"input_text_buffer.append\"}"@
}

/// The end-of-utterance commit, with no payload.
pub open spec fn commit_event_json(id: Seq<char>) -> Seq<char> {
    "{\"event_id\":"@ + quoted(id) + ",\"type\":\"input_text_buffer.commit\"}"@
}

/// Builds the transcription `session.update` event.
pub fn session_update_transcription(id: &str) -> (r: String)
    ensures
        r@ == session_update_transcription_json(id@),
{
    let mut r = String::new();
    r.append("{\"event_id\":");
    append_quoted(&mut r, id);
    r.append(
        ",\"session\":{\"input_audio_format\":\"pcm\",\"modalities\":[\"text\"],\"sample_rate\":16000,\"turn_detection\":{\"type\":\"server_vad\"}},\"type\":\"session.update\"}",
    );
    proof {
        assert(r@ =~= session_update_transcription_json(id@));
    }
    r
}

/// Builds the synthesis `session.update` event.
pub fn session_update_synthesis(id: &str, voice: &str) -> (r: String)
    ensures
        r@ == session_update_synthesis_json(id@, voice@),
{
    let mut r = String::new();
    r.append("{\"event_id\":");
    append_quoted(&mut r, id);
    r.append(",\"session\":{\"response_format\":\"pcm\",\"sample_rate\":24000,\"voice\":");
    append_quoted(&mut r, voice);
    r.append("},\"type\":\"session.update\"}");
    proof {
        assert(r@ =~= session_update_synthesis_json(id@, voice@));
    }
    r
}

/// Builds an `input_audio_buffer.append` event.
pub fn audio_append_event(id: &str, audio_b64: &str) -> (r: String)
    ensures
        r@ == audio_append_event_json(id@, audio_b64@),
{
    let mut r = String::new();
    r.append("{\"audio\":");
    append_quoted(&mut r, audio_b64);
    r.append(",\"event_id\":");
    append_quoted(&mut r, id);
    r.append(",\"type\":\"input_audio_buffer.append\"}");
    proof {
        assert(r@ =~= audio_append_event_json(id@, audio_b64@));
    }
    r
}

/// Builds an `input_text_buffer.append` event.
pub fn text_append_event(id: &str, text: &str) -> (r: String)
    ensures
        r@ == text_append_event_json(id@, text@),
{
    let mut r = String::new();
    r.append("{\"event_id\":");
    append_quoted(&mut r, id);
    r.append(",\"text\":");
    append_quoted(&mut r, text);
    r.append(",\"type\":\"input_text_buffer.append\"}");
    proof {
        assert(r@ =~= text_append_event_json(id@, text@));
    }
    r
}

/// Builds an `input_text_buffer.commit` event.
pub fn commit_event(id: &str) -> (r: String)
    ensures
        r@ == commit_event_json(id@),
{
    let mut r = String::new();
    r.append("{\"event_id\":");
    append_quoted(&mut r, id);
    r.append(",\"type\":\"input_text_buffer.commit\"}");
    proof {
        assert(r@ =~= commit_event_json(id@));
    }
    r
}

} // verus!
