use vstd::prelude::*;

use crate::session::Message;
use crate::wire::{dec_spec, push_dec, push_str_chars, string_from_chars};

verus! {

/// Why one completion turn failed. Only configuration failures are fatal;
/// each of these is shown to the user and the loop stays live.
#[derive(Clone, Copy, PartialEq, Eq, Structural, Debug)]
pub enum TransportError {
    /// The endpoint answered with a non-success HTTP status; its body was
    /// not read.
    BadStatus(u16),
    /// The endpoint answered with zero choices.
    EmptyResponse,
    /// The endpoint could not be reached.
    Network,
    /// The body could not be decoded as a completion response.
    Decode,
}

/// The user-visible text of an error.
pub open spec fn describe_spec(e: TransportError) -> Seq<char> {
    match e {
        TransportError::BadStatus(code) => "API request failed: "@ + dec_spec(code as int),
        TransportError::EmptyResponse => "No response from AI"@,
        TransportError::Network => "Failed to reach the endpoint"@,
        TransportError::Decode => "Failed to decode the response"@,
    }
}

impl TransportError {
    /// The user-visible text of this error.
    pub fn describe(&self) -> (s: String)
        ensures
            s@ == describe_spec(*self),
    {
        match self {
            TransportError::BadStatus(code) => {
                let mut out: Vec<char> = Vec::new();
                push_str_chars(&mut out, "API request failed: ");
                push_dec(&mut out, *code as u32);
                string_from_chars(out)
            },
            TransportError::EmptyResponse => String::from_str("No response from AI"),
            TransportError::Network => String::from_str("Failed to reach the endpoint"),
            TransportError::Decode => String::from_str("Failed to decode the response"),
        }
    }
}

/// One returned completion choice.
pub struct Choice {
    pub message: Message,
}

/// The decoded body of a successful completion response.
pub struct ChatResponse {
    pub choices: Vec<Choice>,
}

/// The message contents a response body decodes to, one per choice and in
/// body order, or nothing where the body is not of the response shape.
pub uninterp spec fn parsed_contents(body: Seq<char>) -> Option<Seq<Seq<char>>>;

/// Relies on serde_json::from_str and serde_json::Value's accessors
/// (get, as_array, as_str): what a body parses to depends on its text
/// alone; the result holds each choice's message content, in order, and
/// is nothing where the body, a choice, or a message field is malformed.
#[verifier::external_body]
fn decode_body(body: &str) -> (r: Option<Vec<String>>)
    ensures
        match r {
            Some(v) => parsed_contents(body@) == Some(v.deep_view()),
            None => parsed_contents(body@) is None,
        },
{
    let root: serde_json::Value = serde_json::from_str(body).ok()?;
    let choices = root.get("choices")?.as_array()?;
    let mut out: Vec<String> = Vec::new();
    for c in choices {
        let m = c.get("message")?;
        m.get("role")?.as_str()?;
        out.push(m.get("content")?.as_str()?.to_string());
    }
    Some(out)
}

/// The reply carried by a decoded choice list: the first content; an
/// empty list is the distinct empty-response error, not a crash.
pub fn reply_from_contents(contents: Vec<String>) -> (r: Result<String, TransportError>)
    ensures
        contents@.len() == 0 ==> r == Err::<String, TransportError>(TransportError::EmptyResponse),
        contents@.len() > 0 ==> (r matches Ok(t) && t@ == contents@[0]@),
{
    if contents.len() == 0 {
        Err(TransportError::EmptyResponse)
    } else {
        Ok(contents[0].clone())
    }
}

/// The reply carried by a structured response: the content of the first
/// choice; an empty choice list is the distinct empty-response error.
pub fn first_reply(resp: &ChatResponse) -> (r: Result<String, TransportError>)
    ensures
        resp.choices@.len() == 0 ==> r == Err::<String, TransportError>(TransportError::EmptyResponse),
        resp.choices@.len() > 0 ==> (r matches Ok(t) && t@ == resp.choices@[0].message.content@),
{
    if resp.choices.len() == 0 {
        Err(TransportError::EmptyResponse)
    } else {
        Ok(resp.choices[0].message.content.clone())
    }
}

/// Whether an HTTP status code counts as success.
pub open spec fn is_success(status: int) -> bool {
    200 <= status < 300
}

/// Decides the outcome of one completion call from what the transport
/// observed. A non-success status fails without the body being read; a
/// body that does not decode fails; a decoded body yields the first
/// choice's content, or the empty-response error.
pub fn interpret_response(status: u16, body: &str) -> (r: Result<String, TransportError>)
    ensures
        !is_success(status as int) ==> r == Err::<String, TransportError>(
            TransportError::BadStatus(status),
        ),
        is_success(status as int) ==> match parsed_contents(body@) {
            None => r == Err::<String, TransportError>(TransportError::Decode),
            Some(cs) => (if cs.len() == 0 {
                r == Err::<String, TransportError>(TransportError::EmptyResponse)
            } else {
                (r matches Ok(t) && t@ == cs[0])
            }),
        },
{
    if !(200 <= status && status < 300) {
        return Err(TransportError::BadStatus(status));
    }
    match decode_body(body) {
        None => Err(TransportError::Decode),
        Some(contents) => reply_from_contents(contents),
    }
}

/// The JSON rendering of `choices[0].text` in a parsed body — `null`
/// where a step of that path is missing — or nothing where the body is
/// not JSON at all.
pub uninterp spec fn raw_first_text(body: Seq<char>) -> Option<Seq<char>>;

/// Relies on serde_json::from_str, Value's index operator (which yields
/// null for a missing key or element) and Value's Display impl (which
/// renders the value as JSON text): the result depends on the body text
/// alone, and none of the calls panics.
#[verifier::external_body]
fn extract_first_text(body: &str) -> (r: Option<String>)
    ensures
        match r {
            Some(s) => raw_first_text(body@) == Some(s@),
            None => raw_first_text(body@) is None,
        },
{
    let v: serde_json::Value = serde_json::from_str(body).ok()?;
    Some(v["choices"][0]["text"].to_string())
}

/// The one-shot query's reply: the raw JSON rendering of the first
/// choice's text, or the decode error where the body is not JSON.
pub fn query_text(body: &str) -> (r: Result<String, TransportError>)
    ensures
        match raw_first_text(body@) {
            None => r == Err::<String, TransportError>(TransportError::Decode),
            Some(s) => (r matches Ok(t) && t@ == s),
        },
{
    match extract_first_text(body) {
        None => Err(TransportError::Decode),
        Some(s) => Ok(s),
    }
}

} // verus!
