//! The pure parts of asking a local vision model to judge a rendered
//! screenshot: the prompt, and the request's fields. Sending it and
//! reading the reply are I/O and live with the tool's command line.
use vstd::prelude::*;
#[allow(unused_imports)]
use base64::Engine;
use crate::text::push_chars;

verus! {

/// Default local model, small enough for CPU-only inference to stay
/// fast.
pub const DEFAULT_MODEL: &'static str = "moondream";

/// Failure judging a screenshot: reading the file, reaching the model
/// server, or parsing its response.
#[derive(Debug)]
pub enum JudgeError {
    /// Couldn't read the image file from disk.
    Io(std::io::Error),
    /// Couldn't reach the server, or it returned an error response; the
    /// string is the server's own message where available.
    Request(String),
    /// The response body wasn't the JSON shape expected.
    Parse(String),
}

/// The judging prompt: a fixed opening, then — when `context` (what the
/// screenshot is supposed to show) is given — the sentence
/// `This is supposed to show: <context>. `, then fixed instructions.
pub open spec fn prompt_text(context: Option<Seq<char>>) -> Seq<char> {
    "You are reviewing a screenshot of a terminal UI rendered by an automated test tool. "@
        + match context {
        Some(c) => "This is supposed to show: "@ + c + ". "@,
        None => Seq::empty(),
    }
        + "Look for: garbled or missing glyphs, broken layout (overlapping text, content cut off unexpectedly), or anything that looks visually wrong. Respond with a brief verdict (LOOKS OK / POSSIBLE ISSUE) followed by 1-3 sentences of reasoning."@
}

/// The text of an optional string.
pub open spec fn opt_text(s: Option<&str>) -> Option<Seq<char>> {
    match s {
        Some(c) => Some(c@),
        None => None,
    }
}

/// Builds the fixed judging prompt, injecting `context` when given.
pub fn build_prompt(context: Option<&str>) -> (p: String)
    ensures
        p@ == prompt_text(opt_text(context)),
{
    let mut p = String::new();
    push_chars(
        &mut p,
        "You are reviewing a screenshot of a terminal UI rendered by an automated test tool. ",
    );
    if let Some(c) = context {
        push_chars(&mut p, "This is supposed to show: ");
        push_chars(&mut p, c);
        push_chars(&mut p, ". ");
    }
    push_chars(
        &mut p,
        "Look for: garbled or missing glyphs, broken layout (overlapping text, content cut off unexpectedly), or anything that looks visually wrong. Respond with a brief verdict (LOOKS OK / POSSIBLE ISSUE) followed by 1-3 sentences of reasoning.",
    );
    assert(p@ =~= prompt_text(opt_text(context)));
    p
}

/// The standard Base64 alphabet: digit `v` is its `v`-th character.
pub open spec fn base64_alphabet() -> Seq<char> {
    "ABCDEFGHIJKLMNOPQRSTUVWXYZabcdefghijklmnopqrstuvwxyz0123456789+/"@
}

/// The Base64 digit of the six-bit value `v`.
pub open spec fn b64(v: int) -> char {
    base64_alphabet()[v]
}

/// The padded standard Base64 text of `bytes` (RFC 4648, section 4):
/// each group of three bytes becomes four digits of six bits each, most
/// significant first; a final group of two bytes becomes three digits
/// and `=`, one byte two digits and `==`.
pub open spec fn base64_standard(bytes: Seq<u8>) -> Seq<char>
    decreases bytes.len(),
{
    if bytes.len() == 0 {
        Seq::empty()
    } else if bytes.len() == 1 {
        let b0 = bytes[0] as int;
        seq![b64(b0 / 4), b64((b0 % 4) * 16), '=', '=']
    } else if bytes.len() == 2 {
        let (b0, b1) = (bytes[0] as int, bytes[1] as int);
        seq![b64(b0 / 4), b64((b0 % 4) * 16 + b1 / 16), b64((b1 % 16) * 4), '=']
    } else {
        let (b0, b1, b2) = (bytes[0] as int, bytes[1] as int, bytes[2] as int);
        seq![
            b64(b0 / 4),
            b64((b0 % 4) * 16 + b1 / 16),
            b64((b1 % 16) * 4 + b2 / 64),
            b64(b2 % 64),
        ] + base64_standard(bytes.skip(3))
    }
}

/// Calls `base64::engine::general_purpose::STANDARD.encode(bytes)`: the
/// standard alphabet with padding (`STANDARD` is built with the `PAD`
/// config, whose `encode_padding` is true). Claimed: the result is the
/// padded standard Base64 text of `bytes`, `base64_standard(bytes@)`.
#[verifier::external_body]
fn encode_base64(bytes: &[u8]) -> (r: String)
    ensures
        r@ == base64_standard(bytes@),
{
    base64::engine::general_purpose::STANDARD.encode(bytes)
}

/// The fields of one judging request: the model to ask, the prompt, and
/// the screenshot as Base64 text.
pub struct JudgeRequest {
    pub model: String,
    pub prompt: String,
    pub image: String,
}

/// The request judging `image_bytes` (a PNG) with `model`, the prompt
/// carrying `context` when given.
pub fn judge_request(image_bytes: &[u8], context: Option<&str>, model: &str) -> (r: JudgeRequest)
    ensures
        r.model@ == model@,
        r.prompt@ == prompt_text(opt_text(context)),
        r.image@ == base64_standard(image_bytes@),
{
    let mut m = String::new();
    push_chars(&mut m, model);
    JudgeRequest { model: m, prompt: build_prompt(context), image: encode_base64(image_bytes) }
}

} // verus!
