//! The question-answering side: the prompt sent to the generation service and
//! the decoding of what comes back.
//!
//! The network call itself is made by the caller. It hands the outcome over as
//! an [`Exchange`], and every outcome ends in a text: an answer, or a diagnostic
//! that says what went wrong.

use vstd::prelude::*;
use vstd::string::*;
use crate::json::{
    element, held, json_document, json_view, member, member_among, parse, rendered, string_value,
    text, written, Json,
};

verus! {

/// Address of the generation service, up to the API key.
pub const ENDPOINT: &'static str =
    "https://generativelanguage.googleapis.com/v1beta/models/gemini-2.5-flash:generateContent?key=";

/// The prompt up to the place of the context.
pub const PROMPT_HEAD: &'static str =
    "You are an AI assistant for Nicholas Pickering's portfolio. \n             Use the following context to answer the user's question. \n             If the answer isn't in the context, say you don't know.\n             \n             CONTEXT:\n             ";

/// The prompt between the context and the question.
pub const PROMPT_MIDDLE: &'static str = "\n             \n             QUESTION:\n             ";

/// The body of a request up to the place of the prompt.
pub const REQUEST_HEAD: &'static str = "{\"contents\":[{\"parts\":[{\"text\":";

/// The body of a request behind the prompt.
pub const REQUEST_TAIL: &'static str = "}]}]}";

/// Diagnostic for a reply that is no JSON document.
pub const MALFORMED: &'static str = "Failed to parse JSON response from Google.";

/// Diagnostic for a JSON reply that holds neither a candidate nor an error.
pub const UNRECOGNIZED: &'static str =
    "Error parsing Gemini response (Check Docker Logs for raw JSON).";

/// What precedes the service's own message in a diagnostic.
pub const API_ERROR: &'static str = "Gemini API Error: ";

/// What precedes the transport's message in a diagnostic.
pub const CALL_ERROR: &'static str = "Error calling Gemini: ";

/// How the call to the generation service ended.
#[derive(Debug, Clone, PartialEq, Eq)]
pub enum Exchange {
    /// The request could not be sent or no response arrived; the text says why.
    Failed(String),
    /// A response arrived but its body could not be read.
    Unreadable,
    /// The body of the response.
    Replied(Vec<u8>),
}

/// A decoded reply of the generation service.
#[derive(Debug, Clone, PartialEq, Eq)]
pub enum Reply {
    /// The text of the first part of the first candidate.
    Answer(String),
    /// The service's error message, as JSON text.
    ApiError(String),
    /// A JSON document of another shape.
    Unrecognized,
    /// Not a JSON document, or a body that could not be read.
    Malformed,
    /// No response arrived; the text says why.
    Unsent(String),
}

/// [`Reply`] over sequences of characters.
pub enum ReplyModel {
    Answer(Seq<char>),
    ApiError(Seq<char>),
    Unrecognized,
    Malformed,
    Unsent(Seq<char>),
}

impl View for Reply {
    type V = ReplyModel;

    open spec fn view(&self) -> ReplyModel {
        match self {
            Reply::Answer(text) => ReplyModel::Answer(text@),
            Reply::ApiError(message) => ReplyModel::ApiError(message@),
            Reply::Unrecognized => ReplyModel::Unrecognized,
            Reply::Malformed => ReplyModel::Malformed,
            Reply::Unsent(reason) => ReplyModel::Unsent(reason@),
        }
    }
}

/// The member `key` of a document that may be absent.
pub open spec fn then_member(parent: Option<Json>, key: Seq<char>) -> Option<Json> {
    match parent {
        Some(document) => document.member(key),
        None => None,
    }
}

/// The element `position` of a document that may be absent.
pub open spec fn then_element(parent: Option<Json>, position: int) -> Option<Json> {
    match parent {
        Some(document) => document.element(position),
        None => None,
    }
}

/// The node at `candidates[0].content.parts[0].text`, if every step exists.
pub open spec fn candidate_node(document: Json) -> Option<Json> {
    then_member(
        then_element(
            then_member(
                then_member(then_element(document.member("candidates"@), 0), "content"@),
                "parts"@,
            ),
            0,
        ),
        "text"@,
    )
}

/// The node at `error.message`, if both steps exist.
pub open spec fn error_node(document: Json) -> Option<Json> {
    then_member(document.member("error"@), "message"@)
}

/// The text of the first part of the first candidate. There is none where a
/// step to it is missing, and none where what stands there is no JSON string.
pub open spec fn candidate_text(document: Json) -> Option<Seq<char>> {
    match candidate_node(document) {
        Some(node) => node.text(),
        None => None,
    }
}

/// How a document is read: a candidate text wins over an error message, and
/// a document that holds neither is not recognized.
pub open spec fn reply_of_document(document: Json) -> ReplyModel {
    match candidate_text(document) {
        Some(characters) => ReplyModel::Answer(characters),
        None => match error_node(document) {
            Some(message) => ReplyModel::ApiError(written(message)),
            None => ReplyModel::Unrecognized,
        },
    }
}

/// The error envelope of the generation service: an object whose only member
/// is `error`, which is an object whose only member is `message`.
pub open spec fn error_envelope(message: Json) -> Json {
    Json::Object(seq![("error"@, Json::Object(seq![("message"@, message)]))])
}

/// An error envelope holds no candidate, and its message is found.
pub proof fn lemma_error_envelope_is_read(message: Json)
    ensures
        candidate_text(error_envelope(message)) is None,
        error_node(error_envelope(message)) == Some(message),
        reply_of_document(error_envelope(message)) == ReplyModel::ApiError(written(message)),
{
    reveal_strlit("error");
    reveal_strlit("message");
    reveal_strlit("candidates");
    let inner = seq![("message"@, message)];
    let outer = seq![("error"@, Json::Object(inner))];
    assert(member_among(outer.skip(1), "candidates"@) is None);
}

/// How a response body is read.
pub open spec fn reply_of_body(body: Seq<u8>) -> ReplyModel {
    match json_document(body) {
        Some(document) => reply_of_document(document),
        None => ReplyModel::Malformed,
    }
}

/// How each way the call can end is read.
pub open spec fn reply_of_exchange(exchange: Exchange) -> ReplyModel {
    match exchange {
        Exchange::Failed(reason) => ReplyModel::Unsent(reason@),
        Exchange::Unreadable => ReplyModel::Malformed,
        Exchange::Replied(body) => reply_of_body(body@),
    }
}

/// The text handed to the client for a reply: the answer itself, or a
/// diagnostic that says what went wrong.
pub open spec fn reply_text(reply: ReplyModel) -> Seq<char> {
    match reply {
        ReplyModel::Answer(text) => text,
        ReplyModel::ApiError(message) => API_ERROR@ + message,
        ReplyModel::Unrecognized => UNRECOGNIZED@,
        ReplyModel::Malformed => MALFORMED@,
        ReplyModel::Unsent(reason) => CALL_ERROR@ + reason,
    }
}

/// The text handed to the client for each way the call can end.
pub open spec fn exchange_text(exchange: Exchange) -> Seq<char> {
    reply_text(reply_of_exchange(exchange))
}

/// The body of the request that carries a prompt, given the prompt as a JSON
/// string.
pub open spec fn envelope_text(prompt_json: Seq<char>) -> Seq<char> {
    REQUEST_HEAD@ + prompt_json + REQUEST_TAIL@
}

/// The prompt for a context and a question.
pub open spec fn prompt_text(context: Seq<char>, question: Seq<char>) -> Seq<char> {
    PROMPT_HEAD@ + context + PROMPT_MIDDLE@ + question
}

fn member_of<'a>(parent: Option<&'a serde_json::Value>, key: &str) -> (found: Option<
    &'a serde_json::Value,
>)
    ensures
        held(found) == then_member(held(parent), key@),
{
    match parent {
        Some(value) => member(value, key),
        None => None,
    }
}

fn element_of<'a>(parent: Option<&'a serde_json::Value>, position: usize) -> (found: Option<
    &'a serde_json::Value,
>)
    ensures
        held(found) == then_element(held(parent), position as int),
{
    match parent {
        Some(value) => element(value, position),
        None => None,
    }
}

/// Reads a parsed document: the text of the first part of the first
/// candidate is the answer; without one, the error message of the document is
/// reported; without that, the document is not recognized.
pub fn read_document(document: &serde_json::Value) -> (reply: Reply)
    ensures
        reply@ == reply_of_document(json_view(*document)),
{
    let candidates = member(document, "candidates");
    let first = element_of(candidates, 0);
    let content = member_of(first, "content");
    let parts = member_of(content, "parts");
    let part = element_of(parts, 0);
    let answer = match member_of(part, "text") {
        Some(node) => text(node),
        None => None,
    };
    match answer {
        Some(characters) => Reply::Answer(String::from_str(characters)),
        None => {
            let error = member(document, "error");
            match member_of(error, "message") {
                Some(message) => Reply::ApiError(rendered(message)),
                None => Reply::Unrecognized,
            }
        },
    }
}

/// Decodes the body of a response.
pub fn decode_reply(body: &[u8]) -> (reply: Reply)
    ensures
        reply@ == reply_of_body(body@),
{
    match parse(body) {
        Some(document) => read_document(&document),
        None => Reply::Malformed,
    }
}

impl Reply {
    /// The text handed to the client: the answer itself, or a diagnostic.
    pub fn text(&self) -> (text: String)
        ensures
            text@ == reply_text(self@),
    {
        match self {
            Reply::Answer(answer) => answer.clone(),
            Reply::ApiError(message) => {
                let mut text = String::from_str(API_ERROR);
                text.append(message.as_str());
                text
            },
            Reply::Unrecognized => String::from_str(UNRECOGNIZED),
            Reply::Malformed => String::from_str(MALFORMED),
            Reply::Unsent(reason) => {
                let mut text = String::from_str(CALL_ERROR);
                text.append(reason.as_str());
                text
            },
        }
    }

    /// Whether the reply is an answer of the service and no diagnostic.
    pub fn is_answer(&self) -> (yes: bool)
        ensures
            yes == (self@ is Answer),
    {
        match self {
            Reply::Answer(_) => true,
            _ => false,
        }
    }
}

/// The client of the generation service.
pub struct Brain {
    api_key: String,
}

impl Brain {
    /// The API key that requests are made with.
    pub closed spec fn key(&self) -> Seq<char> {
        self.api_key@
    }

    pub fn new(api_key: String) -> (brain: Brain)
        ensures
            brain.key() == api_key@,
    {
        Brain { api_key }
    }

    /// The address that the prompt is posted to.
    pub fn endpoint(&self) -> (url: String)
        ensures
            url@ == ENDPOINT@ + self.key(),
    {
        let mut url = String::from_str(ENDPOINT);
        url.append(self.api_key.as_str());
        url
    }

    /// Embeds the retrieved context and the user's question in the fixed
    /// template.
    pub fn prompt(context: &str, user_question: &str) -> (prompt: String)
        ensures
            prompt@ == prompt_text(context@, user_question@),
    {
        let mut prompt = String::from_str(PROMPT_HEAD);
        prompt.append(context);
        prompt.append(PROMPT_MIDDLE);
        prompt.append(user_question);
        prompt
    }

    /// Puts a prompt that is already written as a JSON string into the body of
    /// a request: the prompt is the text of the only part of the only content.
    pub fn envelope(prompt_json: &str) -> (body: String)
        ensures
            body@ == envelope_text(prompt_json@),
    {
        let mut body = String::from_str(REQUEST_HEAD);
        body.append(prompt_json);
        body.append(REQUEST_TAIL);
        body
    }

    /// The body of the request that carries `prompt` to the generation
    /// service, as JSON text.
    pub fn request_body(prompt: &str) -> (body: String)
        ensures
            body@ == envelope_text(written(Json::String(prompt@))),
    {
        let prompt_json = rendered(&string_value(prompt));
        Brain::envelope(prompt_json.as_str())
    }

    /// Reads the outcome of the generation call.
    pub fn interpret(exchange: &Exchange) -> (reply: Reply)
        ensures
            reply@ == reply_of_exchange(*exchange),
    {
        match exchange {
            Exchange::Failed(reason) => Reply::Unsent(reason.clone()),
            Exchange::Unreadable => Reply::Malformed,
            Exchange::Replied(body) => decode_reply(body.as_slice()),
        }
    }

    /// Turns the outcome of the generation call into the text for the client.
    /// Every outcome yields a text; only a reply that holds a candidate yields
    /// the service's own words.
    pub fn ask_gemini(&self, exchange: &Exchange) -> (answer: String)
        ensures
            answer@ == exchange_text(*exchange),
    {
        Brain::interpret(exchange).text()
    }
}

} // verus!
