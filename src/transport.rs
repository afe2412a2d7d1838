//! The wire side of one chat request: endpoint URLs, JSON request bodies,
//! and the decoding of a buffered reply.

use vstd::prelude::*;
use vstd::string::StringExecFns;
use crate::error::LlmError;
use crate::json::{
    json_lookup, json_slot, musli_json_quoted, musli_json_string, serde_json_quoted,
    serde_json_string, JsonSlot,
};
use crate::text::{chars_of, ends_with, has_suffix, push_str, string_of, trim, trimmed};

verus! {

/// `s` without any trailing `/`.
pub open spec fn strip_slashes(s: Seq<char>) -> Seq<char>
    decreases s.len(),
{
    if s.len() > 0 && s.last() == '/' {
        strip_slashes(s.drop_last())
    } else {
        s
    }
}

/// The OpenAI-compatible chat endpoint under `base`: `/chat/completions` is
/// added to a base that already ends in `/v1`, `/v1/chat/completions` to any
/// other.
pub open spec fn openai_url(base: Seq<char>) -> Seq<char> {
    let b = strip_slashes(base);
    if has_suffix(b, "/v1"@) {
        b + "/chat/completions"@
    } else {
        b + "/v1/chat/completions"@
    }
}

/// The Ollama-compatible chat endpoint under `base`.
pub open spec fn ollama_url(base: Seq<char>) -> Seq<char> {
    strip_slashes(base) + "/api/chat"@
}

/// Whether an HTTP status code reports success.
pub open spec fn is_success_status(status: u16) -> bool {
    200 <= status <= 299
}

pub open spec fn bool_text(b: bool) -> Seq<char> {
    if b {
        "true"@
    } else {
        "false"@
    }
}

/// The OpenAI request body: model, the system and user messages, and the
/// stream flag, in that order.
pub open spec fn openai_body(model: Seq<char>, system: Seq<char>, user: Seq<char>, stream: bool) -> Seq<
    char,
> {
    "{\"model\":"@ + serde_json_quoted(model) + ",\"messages\":[{\"role\":\"system\",\"content\":"@
        + serde_json_quoted(system) + "},{\"role\":\"user\",\"content\":"@ + serde_json_quoted(user)
        + "}],\"stream\":"@ + bool_text(stream) + "}"@
}

/// The Ollama request body: model, the stream flag, and the system and user
/// messages, in that order.
pub open spec fn ollama_body(model: Seq<char>, system: Seq<char>, user: Seq<char>, stream: bool) -> Seq<
    char,
> {
    "{\"model\":"@ + musli_json_quoted(model) + ",\"stream\":"@ + bool_text(stream)
        + ",\"messages\":[{\"role\":\"system\",\"content\":"@ + musli_json_quoted(system)
        + "},{\"role\":\"user\",\"content\":"@ + musli_json_quoted(user) + "}]}"@
}

/// The text of a buffered OpenAI reply, from what stands at its root, at
/// `/choices` and at `/choices/0/message/content`; `None` if the reply does not
/// decode or has no choice.
pub open spec fn openai_reply_text(root: JsonSlot, choices: JsonSlot, content: JsonSlot) -> Option<
    Seq<char>,
> {
    match (root, choices, content) {
        (JsonSlot::Object, JsonSlot::Array(n), JsonSlot::Text(s)) => if n > 0 {
            Some(s@)
        } else {
            None
        },
        _ => None,
    }
}

/// The text of a buffered Ollama reply, from what stands at its root, at
/// `/message` and at `/message/content`, trimmed; `None` if it does not decode.
pub open spec fn ollama_reply_text(root: JsonSlot, message: JsonSlot, content: JsonSlot) -> Option<
    Seq<char>,
> {
    match (root, message, content) {
        (JsonSlot::Object, JsonSlot::Object, JsonSlot::Text(s)) => Some(trimmed(s@)),
        _ => None,
    }
}

/// `s` without any trailing `/`.
pub fn strip_trailing_slashes(s: &str) -> (r: String)
    ensures
        r@ == strip_slashes(s@),
{
    let cs = chars_of(s);
    let mut end = cs.len();
    assert(cs@.take(cs@.len() as int) == cs@);
    while end > 0 && cs[end - 1] == '/'
        invariant
            end <= cs@.len(),
            strip_slashes(cs@.take(end as int)) == strip_slashes(cs@),
        decreases end,
    {
        assert(cs@.take(end as int).drop_last() == cs@.take(end - 1));
        end = end - 1;
    }
    assert(cs@.take(end as int) == cs@.subrange(0, end as int));
    string_of(&cs, 0, end)
}

/// The OpenAI-compatible chat endpoint under `base`.
pub fn openai_chat_url(base: &str) -> (r: String)
    ensures
        r@ == openai_url(base@),
{
    let mut b = strip_trailing_slashes(base);
    if ends_with(b.as_str(), "/v1") {
        push_str(&mut b, "/chat/completions");
    } else {
        push_str(&mut b, "/v1/chat/completions");
    }
    b
}

/// The Ollama-compatible chat endpoint under `base`.
pub fn ollama_chat_url(base: &str) -> (r: String)
    ensures
        r@ == ollama_url(base@),
{
    let mut b = strip_trailing_slashes(base);
    push_str(&mut b, "/api/chat");
    b
}

fn push_bool(out: &mut String, b: bool)
    ensures
        final(out)@ == old(out)@ + bool_text(b),
{
    if b {
        push_str(out, "true");
    } else {
        push_str(out, "false");
    }
}

/// The JSON body of an OpenAI chat request.
pub fn openai_request_body(model: &str, system: &str, user: &str, stream: bool) -> (r: String)
    ensures
        r@ == openai_body(model@, system@, user@, stream),
{
    let mut out = String::from_str("{\"model\":");
    push_str(&mut out, serde_json_string(model).as_str());
    push_str(&mut out, ",\"messages\":[{\"role\":\"system\",\"content\":");
    push_str(&mut out, serde_json_string(system).as_str());
    push_str(&mut out, "},{\"role\":\"user\",\"content\":");
    push_str(&mut out, serde_json_string(user).as_str());
    push_str(&mut out, "}],\"stream\":");
    push_bool(&mut out, stream);
    push_str(&mut out, "}");
    out
}

/// The JSON body of an Ollama chat request.
pub fn ollama_request_body(model: &str, system: &str, user: &str, stream: bool) -> (r: String)
    ensures
        r@ == ollama_body(model@, system@, user@, stream),
{
    let mut out = String::from_str("{\"model\":");
    push_str(&mut out, musli_json_string(model).as_str());
    push_str(&mut out, ",\"stream\":");
    push_bool(&mut out, stream);
    push_str(&mut out, ",\"messages\":[{\"role\":\"system\",\"content\":");
    push_str(&mut out, musli_json_string(system).as_str());
    push_str(&mut out, "},{\"role\":\"user\",\"content\":");
    push_str(&mut out, musli_json_string(user).as_str());
    push_str(&mut out, "}]}");
    out
}

/// The error for a reply with HTTP status `status` and body `body`: `None`
/// when the status reports success.
pub fn http_failure(status: u16, body: &str) -> (r: Option<LlmError>)
    ensures
        is_success_status(status) <==> r is None,
        r matches Some(e) ==> (e matches LlmError::Transport { status: st, detail } && st == Some(
            status,
        ) && detail@ == body@),
{
    if 200 <= status && status <= 299 {
        None
    } else {
        Some(LlmError::Transport { status: Some(status), detail: String::from_str(body) })
    }
}

/// The text of a buffered OpenAI reply from the three values looked up in it.
pub fn classify_openai_reply(root: JsonSlot, choices: JsonSlot, content: JsonSlot) -> (r: Option<
    String,
>)
    ensures
        r matches Some(s) ==> openai_reply_text(root, choices, content) == Some(s@),
        r is None ==> openai_reply_text(root, choices, content) is None,
{
    match (root, choices, content) {
        (JsonSlot::Object, JsonSlot::Array(n), JsonSlot::Text(s)) => {
            if n > 0 {
                Some(s)
            } else {
                None
            }
        },
        _ => None,
    }
}

/// The text of a buffered Ollama reply from the three values looked up in it.
pub fn classify_ollama_reply(root: JsonSlot, message: JsonSlot, content: JsonSlot) -> (r: Option<
    String,
>)
    ensures
        r matches Some(s) ==> ollama_reply_text(root, message, content) == Some(s@),
        r is None ==> ollama_reply_text(root, message, content) is None,
{
    match (root, message, content) {
        (JsonSlot::Object, JsonSlot::Object, JsonSlot::Text(s)) => Some(trim(s.as_str())),
        _ => None,
    }
}

fn reply_decode_failure() -> (e: LlmError)
    ensures
        e is Decode,
{
    LlmError::Decode { detail: String::from_str("failed to decode the reply") }
}

/// The text of a buffered OpenAI reply with HTTP status `status` and body
/// `body`: a transport error for a non-success status, a decode error for a
/// body without a first choice's message text.
pub fn openai_reply(status: u16, body: &str) -> (r: Result<String, LlmError>)
    ensures
        !is_success_status(status) ==> (r matches Err(LlmError::Transport { status: st, detail })
            && st == Some(status) && detail@ == body@),
        is_success_status(status) ==> match openai_reply_text(
            json_slot(body@, ""@),
            json_slot(body@, "/choices"@),
            json_slot(body@, "/choices/0/message/content"@),
        ) {
            Some(t) => r matches Ok(s) && s@ == t,
            None => r matches Err(LlmError::Decode { .. }),
        },
{
    if let Some(e) = http_failure(status, body) {
        return Err(e);
    }
    let root = json_lookup(body, "");
    let choices = json_lookup(body, "/choices");
    let content = json_lookup(body, "/choices/0/message/content");
    match classify_openai_reply(root, choices, content) {
        Some(s) => Ok(s),
        None => Err(reply_decode_failure()),
    }
}

/// The text of a buffered Ollama reply with HTTP status `status` and body
/// `body`, trimmed: a transport error for a non-success status, a decode error
/// for a body without a message text.
pub fn ollama_reply(status: u16, body: &str) -> (r: Result<String, LlmError>)
    ensures
        !is_success_status(status) ==> (r matches Err(LlmError::Transport { status: st, detail })
            && st == Some(status) && detail@ == body@),
        is_success_status(status) ==> match ollama_reply_text(
            json_slot(body@, ""@),
            json_slot(body@, "/message"@),
            json_slot(body@, "/message/content"@),
        ) {
            Some(t) => r matches Ok(s) && s@ == t,
            None => r matches Err(LlmError::Decode { .. }),
        },
{
    if let Some(e) = http_failure(status, body) {
        return Err(e);
    }
    let root = json_lookup(body, "");
    let message = json_lookup(body, "/message");
    let content = json_lookup(body, "/message/content");
    match classify_ollama_reply(root, message, content) {
        Some(s) => Ok(s),
        None => Err(reply_decode_failure()),
    }
}

} // verus!
