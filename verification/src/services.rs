//! Verified text handling around the remote transcription and generation
//! services: reading their JSON response bodies, building the generation
//! request, and choosing the pipeline's audio file.

use vstd::prelude::*;

verus! {

/// A service response that could not be read: the body is not valid JSON,
/// or the expected field is missing.
#[derive(Clone, Copy, Debug, PartialEq, Eq, Structural)]
pub struct ParseError;

/// The string under the top-level "text" field of a JSON document, when the
/// document parses as an object with a string there.
pub uninterp spec fn text_field_of(body: Seq<char>) -> Option<Seq<char>>;

/// Relies on serde_json::from_str, Value::get and Value::as_str: parses the
/// body and hands back the string under its top-level "text" field. The
/// result depends on the body alone, and none of the calls panics.
#[verifier::external_body]
fn json_text_field(body: &str) -> (r: Option<String>)
    ensures
        (r is Some) == (text_field_of(body@) is Some),
        r matches Some(t) ==> text_field_of(body@) matches Some(s) && t@ == s,
{
    match serde_json::from_str::<serde_json::Value>(body) {
        Ok(v) => v.get("text").and_then(|t| t.as_str()).map(|s| s.to_string()),
        Err(_) => None,
    }
}

/// Reads the transcription service's response body: the transcript is the
/// string under the top-level "text" field, and anything else is a parse
/// error.
pub fn transcript_text(body: &str) -> (r: Result<String, ParseError>)
    ensures
        (r is Ok) == (text_field_of(body@) is Some),
        r matches Ok(t) ==> text_field_of(body@) matches Some(s) && t@ == s,
{
    match json_text_field(body) {
        Some(t) => Ok(t),
        None => Err(ParseError),
    }
}

/// The string under choices[0].message.content of a JSON document, when the
/// document parses with a string there.
pub uninterp spec fn completion_field_of(body: Seq<char>) -> Option<Seq<char>>;

/// Relies on serde_json::from_str, Value::get and Value::as_str: parses the
/// body and hands back the string under choices[0].message.content. The
/// result depends on the body alone, and none of the calls panics.
#[verifier::external_body]
fn json_completion_field(body: &str) -> (r: Option<String>)
    ensures
        (r is Some) == (completion_field_of(body@) is Some),
        r matches Some(t) ==> completion_field_of(body@) matches Some(s) && t@ == s,
{
    match serde_json::from_str::<serde_json::Value>(body) {
        Ok(v) => v
            .get("choices")
            .and_then(|c| c.get(0))
            .and_then(|c| c.get("message"))
            .and_then(|m| m.get("content"))
            .and_then(|c| c.as_str())
            .map(|s| s.to_string()),
        Err(_) => None,
    }
}

/// Reads the generation service's response body: the completion is the
/// string under choices[0].message.content, and anything else is a parse
/// error.
pub fn completion_text(body: &str) -> (r: Result<String, ParseError>)
    ensures
        (r is Ok) == (completion_field_of(body@) is Some),
        r matches Ok(t) ==> completion_field_of(body@) matches Some(s) && t@ == s,
{
    match json_completion_field(body) {
        Some(t) => Ok(t),
        None => Err(ParseError),
    }
}

/// The JSON string literal — quotes and escapes included — that serde_json
/// produces for a string.
pub uninterp spec fn json_quoted(s: Seq<char>) -> Seq<char>;

/// Relies on serde_json::to_string on a string slice: serialising a string
/// cannot fail (only a failing Serialize impl or a non-string map key can),
/// and the output depends on the characters alone.
#[verifier::external_body]
fn quote_json_string(s: &str) -> (r: String)
    ensures
        r@ == json_quoted(s@),
{
    match serde_json::to_string(s) {
        Ok(r) => r,
        Err(_) => String::new(),
    }
}

/// The fixed system prompt sent with every generation request.
pub open spec fn prompt_context() -> Seq<char> {
    "You are a helpful assistant. You are precise and concise. You are are Linux user, and provide responses commands, to be executed directly in the terminal (with some random animation from cowsay for a dragon or similar, but avoid unsafe commands like rm, rm -rf, rmdir, cp, chmod). The command needs to be enclosed in ```bash``` tags. REMEMBER that the enclosed ```bash``` tags is important for the command to be found with regex."@
}

/// The generation request body: the fixed model identifier and a
/// two-message list — the system prompt, then the user's transcript.
pub open spec fn request_body_spec(user: Seq<char>) -> Seq<char> {
    "{\"model\":\"gpt-4o-mini\",\"messages\":[{\"role\":\"system\",\"content\":"@ + json_quoted(
        prompt_context(),
    ) + "},{\"role\":\"user\",\"content\":"@ + json_quoted(user) + "}]}"@
}

/// Builds the generation request body for a transcript.
pub fn generation_request_body(user_message: &str) -> (r: String)
    ensures
        r@ == request_body_spec(user_message@),
{
    let mut r = String::from_str(
        "{\"model\":\"gpt-4o-mini\",\"messages\":[{\"role\":\"system\",\"content\":",
    );
    let quoted_prompt = quote_json_string(
        "You are a helpful assistant. You are precise and concise. You are are Linux user, and provide responses commands, to be executed directly in the terminal (with some random animation from cowsay for a dragon or similar, but avoid unsafe commands like rm, rm -rf, rmdir, cp, chmod). The command needs to be enclosed in ```bash``` tags. REMEMBER that the enclosed ```bash``` tags is important for the command to be found with regex.",
    );
    r.append(quoted_prompt.as_str());
    r.append("},{\"role\":\"user\",\"content\":");
    let quoted_user = quote_json_string(user_message);
    r.append(quoted_user.as_str());
    r.append("}]}");
    r
}

/// The audio file the pipeline uses, chosen by the example flag: a live
/// recording is made unless the flag asks for the pre-recorded example.
/// The first component says whether to record; the second is the file name
/// inside the recordings folder.
pub fn select_audio_file(example: &String) -> (r: (bool, &'static str))
    ensures
        r.0 == (example@ == "false"@),
        r.0 ==> r.1@ == "real_audio.wav"@,
        !r.0 ==> r.1@ == "test_audio.mp3"@,
{
    let flag = String::from_str("false");
    if example.eq(&flag) {
        (true, "real_audio.wav")
    } else {
        (false, "test_audio.mp3")
    }
}

} // verus!
