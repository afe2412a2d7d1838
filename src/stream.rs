//! Incremental decoding of a streamed chat reply.
//!
//! Two wire encodings exist. Server-sent events (`Sse`) carry each chunk on a
//! line `data: {json}` and end with `data: [DONE]`; newline-delimited JSON
//! (`Ndjson`) carries one JSON object per line and ends with `"done": true`.
//! Each line decodes to a frame, and one accumulator turns frames into text.

use vstd::prelude::*;
use vstd::string::StringExecFns;
use crate::error::LlmError;
use crate::json::{json_lookup, json_slot, JsonSlot};
use crate::text::{has_prefix, push_str, starts_with, trim, trimmed};

verus! {

/// One decoded line of a streamed reply.
#[derive(Clone, Debug, PartialEq, Eq)]
pub enum StreamFrame {
    /// A line that carries no text (framing, a blank line, an empty delta).
    Skip,
    /// A fragment of the reply's text.
    Delta(String),
    /// The end-of-stream marker.
    End,
}

/// The wire encoding of a streamed reply.
#[derive(Clone, Copy, Debug, PartialEq, Eq, Structural)]
pub enum WireFormat {
    /// OpenAI-style server-sent events.
    Sse,
    /// Ollama-style newline-delimited JSON.
    Ndjson,
}

/// Where an accumulator stands.
#[derive(Clone, Copy, Debug, PartialEq, Eq, Structural)]
pub enum StreamStatus {
    /// More lines are expected.
    Open,
    /// The end marker was seen; further lines are not read.
    Ended,
    /// A line could not be decoded; the text so far was discarded.
    Failed,
}

/// The frame for a delta's content: text if non-empty, nothing if absent,
/// null or empty, and no frame (a decode failure) for any other value.
pub open spec fn text_frame(content: JsonSlot) -> Option<StreamFrame> {
    match content {
        JsonSlot::Absent => Some(StreamFrame::Skip),
        JsonSlot::Null => Some(StreamFrame::Skip),
        JsonSlot::Text(s) => if s@.len() == 0 {
            Some(StreamFrame::Skip)
        } else {
            Some(StreamFrame::Delta(s))
        },
        _ => None,
    }
}

/// The frame of an SSE chunk, from what stands at its root, at `/choices`, at
/// `/choices/0/delta` and at `/choices/0/delta/content`. `None` when the
/// chunk is not valid JSON or lacks the envelope's fields.
pub open spec fn sse_chunk_frame(
    root: JsonSlot,
    choices: JsonSlot,
    delta: JsonSlot,
    content: JsonSlot,
) -> Option<StreamFrame> {
    match (root, choices) {
        (JsonSlot::Object, JsonSlot::Array(n)) => if n == 0 {
            Some(StreamFrame::Skip)
        } else {
            match delta {
                JsonSlot::Object => text_frame(content),
                _ => None,
            }
        },
        _ => None,
    }
}

/// The frame of an NDJSON chunk, from what stands at its root, at `/done`, at
/// `/message` and at `/message/content`. A true `done` ends the stream
/// whatever else the line holds.
pub open spec fn ndjson_chunk_frame(
    root: JsonSlot,
    done: JsonSlot,
    message: JsonSlot,
    content: JsonSlot,
) -> Option<StreamFrame> {
    match root {
        JsonSlot::Object => match done {
            JsonSlot::Bool(true) => Some(StreamFrame::End),
            JsonSlot::Bool(false) | JsonSlot::Absent | JsonSlot::Null => match message {
                JsonSlot::Absent | JsonSlot::Null => Some(StreamFrame::Skip),
                JsonSlot::Object => match content {
                    JsonSlot::Text(_) => text_frame(content),
                    _ => None,
                },
                _ => None,
            },
            _ => None,
        },
        _ => None,
    }
}

/// The frame of one SSE line: lines that, trimmed, do not begin with `data:`
/// carry nothing; the payload after the prefix, trimmed, is either the
/// `[DONE]` marker or a JSON chunk.
pub open spec fn sse_line_frame(line: Seq<char>) -> Option<StreamFrame> {
    let t = trimmed(line);
    if !has_prefix(t, "data:"@) {
        Some(StreamFrame::Skip)
    } else {
        let p = trimmed(t.skip(5));
        if p == "[DONE]"@ {
            Some(StreamFrame::End)
        } else {
            sse_chunk_frame(
                json_slot(p, ""@),
                json_slot(p, "/choices"@),
                json_slot(p, "/choices/0/delta"@),
                json_slot(p, "/choices/0/delta/content"@),
            )
        }
    }
}

/// The frame of one NDJSON line: a blank line carries nothing, any other is
/// one JSON chunk.
pub open spec fn ndjson_line_frame(line: Seq<char>) -> Option<StreamFrame> {
    let t = trimmed(line);
    if t.len() == 0 {
        Some(StreamFrame::Skip)
    } else {
        ndjson_chunk_frame(
            json_slot(t, ""@),
            json_slot(t, "/done"@),
            json_slot(t, "/message"@),
            json_slot(t, "/message/content"@),
        )
    }
}

pub open spec fn line_frame(format: WireFormat, line: Seq<char>) -> Option<StreamFrame> {
    match format {
        WireFormat::Sse => sse_line_frame(line),
        WireFormat::Ndjson => ndjson_line_frame(line),
    }
}

/// The accumulator's state after one more frame (`None`: a line that failed to
/// decode). Once the stream has ended or failed, nothing changes it.
pub open spec fn apply_frame(
    state: (Seq<char>, StreamStatus),
    frame: Option<StreamFrame>,
) -> (Seq<char>, StreamStatus) {
    if state.1 != StreamStatus::Open {
        state
    } else {
        match frame {
            None => (Seq::empty(), StreamStatus::Failed),
            Some(StreamFrame::Skip) => state,
            Some(StreamFrame::Delta(d)) => (state.0 + d@, StreamStatus::Open),
            Some(StreamFrame::End) => (state.0, StreamStatus::Ended),
        }
    }
}

/// The accumulator's state after the lines `lines`.
pub open spec fn fed(format: WireFormat, lines: Seq<Seq<char>>) -> (Seq<char>, StreamStatus)
    decreases lines.len(),
{
    if lines.len() == 0 {
        (Seq::empty(), StreamStatus::Open)
    } else {
        apply_frame(fed(format, lines.drop_last()), line_frame(format, lines.last()))
    }
}

/// The text a stream of lines amounts to; `None` if a line failed to decode
/// before the end. A stream that stops without its end marker keeps what it
/// had.
pub open spec fn stream_text(format: WireFormat, lines: Seq<Seq<char>>) -> Option<Seq<char>> {
    let s = fed(format, lines);
    if s.1 == StreamStatus::Failed {
        None
    } else {
        Some(s.0)
    }
}

/// The frame of an SSE chunk from the four values looked up in it.
pub fn classify_sse_chunk(root: JsonSlot, choices: JsonSlot, delta: JsonSlot, content: JsonSlot) -> (r:
    Option<StreamFrame>)
    ensures
        r == sse_chunk_frame(root, choices, delta, content),
{
    match (root, choices) {
        (JsonSlot::Object, JsonSlot::Array(n)) => {
            if n == 0 {
                Some(StreamFrame::Skip)
            } else {
                match delta {
                    JsonSlot::Object => classify_content(content),
                    _ => None,
                }
            }
        },
        _ => None,
    }
}

fn classify_content(content: JsonSlot) -> (r: Option<StreamFrame>)
    ensures
        r == text_frame(content),
{
    match content {
        JsonSlot::Absent => Some(StreamFrame::Skip),
        JsonSlot::Null => Some(StreamFrame::Skip),
        JsonSlot::Text(s) => {
            if s.as_str().is_empty() {
                Some(StreamFrame::Skip)
            } else {
                Some(StreamFrame::Delta(s))
            }
        },
        _ => None,
    }
}

/// The frame of an NDJSON chunk from the four values looked up in it.
pub fn classify_ndjson_chunk(root: JsonSlot, done: JsonSlot, message: JsonSlot, content: JsonSlot) -> (r:
    Option<StreamFrame>)
    ensures
        r == ndjson_chunk_frame(root, done, message, content),
{
    match root {
        JsonSlot::Object => match done {
            JsonSlot::Bool(true) => Some(StreamFrame::End),
            JsonSlot::Bool(false) | JsonSlot::Absent | JsonSlot::Null => match message {
                JsonSlot::Absent | JsonSlot::Null => Some(StreamFrame::Skip),
                JsonSlot::Object => match content {
                    JsonSlot::Text(_) => classify_content(content),
                    _ => None,
                },
                _ => None,
            },
            _ => None,
        },
        _ => None,
    }
}

fn decode_failure() -> (e: LlmError)
    ensures
        e is Decode,
{
    LlmError::Decode { detail: String::from_str("failed to decode a streamed chunk") }
}

fn frame_result(frame: Option<StreamFrame>) -> (r: Result<StreamFrame, LlmError>)
    ensures
        frame matches Some(f) ==> r == Ok::<StreamFrame, LlmError>(f),
        frame is None ==> r matches Err(LlmError::Decode { .. }),
{
    match frame {
        Some(f) => Ok(f),
        None => Err(decode_failure()),
    }
}

/// Decodes one line of an SSE stream.
pub fn decode_sse_line(line: &str) -> (r: Result<StreamFrame, LlmError>)
    ensures
        sse_line_frame(line@) matches Some(f) ==> r == Ok::<StreamFrame, LlmError>(f),
        sse_line_frame(line@) is None ==> r matches Err(LlmError::Decode { .. }),
{
    let t = trim(line);
    if !starts_with(t.as_str(), "data:") {
        return Ok(StreamFrame::Skip);
    }
    proof {
        reveal_strlit("data:");
    }
    let rest = t.as_str().substring_char(5, t.unicode_len());
    assert(rest@ == t@.skip(5));
    let p = trim(rest);
    let ps = p.as_str();
    let done = String::from_str("[DONE]");
    if p == done {
        return Ok(StreamFrame::End);
    }
    let root = json_lookup(ps, "");
    let choices = json_lookup(ps, "/choices");
    let delta = json_lookup(ps, "/choices/0/delta");
    let content = json_lookup(ps, "/choices/0/delta/content");
    frame_result(classify_sse_chunk(root, choices, delta, content))
}

/// Decodes one line of an NDJSON stream.
pub fn decode_ndjson_line(line: &str) -> (r: Result<StreamFrame, LlmError>)
    ensures
        ndjson_line_frame(line@) matches Some(f) ==> r == Ok::<StreamFrame, LlmError>(f),
        ndjson_line_frame(line@) is None ==> r matches Err(LlmError::Decode { .. }),
{
    let t = trim(line);
    if t.unicode_len() == 0 {
        return Ok(StreamFrame::Skip);
    }
    let ts = t.as_str();
    let root = json_lookup(ts, "");
    let done = json_lookup(ts, "/done");
    let message = json_lookup(ts, "/message");
    let content = json_lookup(ts, "/message/content");
    frame_result(classify_ndjson_chunk(root, done, message, content))
}

/// Decodes one line in the given wire encoding.
pub fn decode_line(format: WireFormat, line: &str) -> (r: Result<StreamFrame, LlmError>)
    ensures
        line_frame(format, line@) matches Some(f) ==> r == Ok::<StreamFrame, LlmError>(f),
        line_frame(format, line@) is None ==> r matches Err(LlmError::Decode { .. }),
{
    match format {
        WireFormat::Sse => decode_sse_line(line),
        WireFormat::Ndjson => decode_ndjson_line(line),
    }
}

/// The text of one streaming call, built up line by line.
pub struct StreamAccumulator {
    format: WireFormat,
    text: String,
    status: StreamStatus,
}

impl StreamAccumulator {
    pub closed spec fn format_spec(&self) -> WireFormat {
        self.format
    }

    /// The accumulated text and the status.
    pub closed spec fn state(&self) -> (Seq<char>, StreamStatus) {
        (self.text@, self.status)
    }

    /// An open accumulator with no text yet.
    pub fn new(format: WireFormat) -> (r: Self)
        ensures
            r.format_spec() == format,
            r.state() == fed(format, Seq::empty()),
    {
        StreamAccumulator { format, text: String::new(), status: StreamStatus::Open }
    }

    pub fn status(&self) -> (r: StreamStatus)
        ensures
            r == self.state().1,
    {
        self.status
    }

    /// Whether more lines are to be read.
    pub fn is_open(&self) -> (r: bool)
        ensures
            r == (self.state().1 == StreamStatus::Open),
    {
        self.status == StreamStatus::Open
    }

    /// Takes one frame. Returns the fragment to echo, if the frame added one.
    pub fn push_frame(&mut self, frame: StreamFrame) -> (echo: Option<String>)
        ensures
            final(self).format_spec() == old(self).format_spec(),
            final(self).state() == apply_frame(old(self).state(), Some(frame)),
            echo matches Some(d) ==> old(self).state().1 == StreamStatus::Open && frame
                == StreamFrame::Delta(d),
            frame matches StreamFrame::Delta(d) ==> (old(self).state().1 == StreamStatus::Open
                ==> echo == Some(d)),
            !(frame is Delta) ==> echo is None,
    {
        if self.status != StreamStatus::Open {
            return None;
        }
        match frame {
            StreamFrame::Skip => None,
            StreamFrame::Delta(d) => {
                push_str(&mut self.text, d.as_str());
                Some(d)
            },
            StreamFrame::End => {
                self.status = StreamStatus::Ended;
                None
            },
        }
    }

    /// Takes one raw line of the wire. A line that fails to decode while the
    /// stream is open discards the text and fails the stream. Returns the
    /// fragment to echo, if the line added one.
    pub fn push_line(&mut self, line: &str) -> (echo: Option<String>)
        ensures
            final(self).format_spec() == old(self).format_spec(),
            final(self).state() == apply_frame(
                old(self).state(),
                line_frame(old(self).format_spec(), line@),
            ),
            echo matches Some(d) ==> old(self).state().1 == StreamStatus::Open && line_frame(
                old(self).format_spec(),
                line@,
            ) == Some(StreamFrame::Delta(d)),
            line_frame(old(self).format_spec(), line@) matches Some(StreamFrame::Delta(d)) ==> (
            old(self).state().1 == StreamStatus::Open ==> echo == Some(d)),
    {
        if self.status != StreamStatus::Open {
            return None;
        }
        match decode_line(self.format, line) {
            Ok(frame) => self.push_frame(frame),
            Err(_) => {
                self.text = String::new();
                self.status = StreamStatus::Failed;
                None
            },
        }
    }

    /// The text of the call: an error if a line failed to decode, else
    /// whatever was accumulated, whether or not the end marker came.
    pub fn finish(self) -> (r: Result<String, LlmError>)
        ensures
            self.state().1 == StreamStatus::Failed ==> r matches Err(LlmError::Decode { .. }),
            self.state().1 != StreamStatus::Failed ==> (r matches Ok(t) && t@ == self.state().0),
    {
        if self.status == StreamStatus::Failed {
            Err(decode_failure())
        } else {
            Ok(self.text)
        }
    }
}

pub open spec fn line_views(lines: Seq<String>) -> Seq<Seq<char>> {
    lines.map_values(|l: String| l@)
}

/// Reads a whole stream of lines: the text it amounts to, or the decode
/// error of a line that came before the end marker.
pub fn read_stream_to_string(format: WireFormat, lines: &Vec<String>) -> (r: Result<String, LlmError>)
    ensures
        stream_text(format, line_views(lines@)) matches Some(t) ==> (r matches Ok(s) && s@ == t),
        stream_text(format, line_views(lines@)) is None ==> r matches Err(LlmError::Decode { .. }),
{
    let ghost views = line_views(lines@);
    let mut acc = StreamAccumulator::new(format);
    let mut i: usize = 0;
    while i < lines.len() && acc.is_open()
        invariant
            i <= lines@.len(),
            views == line_views(lines@),
            acc.format_spec() == format,
            acc.state() == fed(format, views.take(i as int)),
        decreases lines@.len() - i,
    {
        let _ = acc.push_line(lines[i].as_str());
        assert(views.take(i + 1).drop_last() == views.take(i as int));
        i = i + 1;
    }
    proof {
        if i < lines@.len() {
            lemma_fed_after_close(format, views.take(i as int), views.skip(i as int));
        }
        assert(views.take(i as int) + views.skip(i as int) == views);
    }
    acc.finish()
}

/// Once a stream has ended or failed, further lines change nothing.
pub proof fn lemma_fed_after_close(format: WireFormat, lines: Seq<Seq<char>>, more: Seq<Seq<char>>)
    requires
        fed(format, lines).1 != StreamStatus::Open,
    ensures
        fed(format, lines + more) == fed(format, lines),
    decreases more.len(),
{
    if more.len() > 0 {
        assert((lines + more).drop_last() == lines + more.drop_last());
        lemma_fed_after_close(format, lines, more.drop_last());
    } else {
        assert(lines + more == lines);
    }
}

/// Feeding a completed stream a second time, right after the first, yields
/// the same text as feeding it once: nothing after the end marker is read.
pub proof fn lemma_completed_stream_read_twice(format: WireFormat, lines: Seq<Seq<char>>)
    requires
        fed(format, lines).1 == StreamStatus::Ended,
    ensures
        stream_text(format, lines + lines) == stream_text(format, lines),
        stream_text(format, lines) == Some(fed(format, lines).0),
{
    lemma_fed_after_close(format, lines, lines);
}

/// A line that fails to decode while the stream is open fails the whole
/// stream, and the text accumulated before it is dropped.
pub proof fn lemma_malformed_line_discards_text(format: WireFormat, lines: Seq<Seq<char>>, k: int)
    requires
        0 <= k < lines.len(),
        fed(format, lines.take(k)).1 == StreamStatus::Open,
        line_frame(format, lines[k]) is None,
    ensures
        fed(format, lines) == (Seq::<char>::empty(), StreamStatus::Failed),
        stream_text(format, lines) is None,
{
    assert(lines.take(k + 1).drop_last() == lines.take(k));
    lemma_fed_after_close(format, lines.take(k + 1), lines.skip(k + 1));
    assert(lines.take(k + 1) + lines.skip(k + 1) == lines);
}

} // verus!
