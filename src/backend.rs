use vstd::prelude::*;

use base64::Engine;

use crate::config::Interface;
use crate::error::{ErrorView, ImageAnalysisError, text_result_view};
use crate::json::{JsonValue, parse_json, parsed_json};
use crate::llamacpp::LlamaCppResponse;
use crate::ollama::ChatResponse;
use crate::text::{strip_trailing_slashes, trim, trim_trailing_slashes, trimmed_of};

verus! {

/// Standard base64, with padding, of a byte sequence.
pub uninterp spec fn base64_of(b: Seq<u8>) -> Seq<char>;

/// A text written as a JSON string literal, quotes and escapes included.
pub uninterp spec fn json_quoted(s: Seq<char>) -> Seq<char>;

/// Relies on `base64::engine::general_purpose::STANDARD.encode`: the result
/// depends on the bytes alone, and no bytes give the empty text.
#[verifier::external_body]
pub(crate) fn encode_base64(bytes: &[u8]) -> (r: String)
    ensures
        r@ == base64_of(bytes@),
        bytes@.len() == 0 ==> r@.len() == 0,
{
    base64::engine::general_purpose::STANDARD.encode(bytes)
}

/// Relies on `serde_json::to_string` of a `str`: the JSON string literal for a
/// text, which depends on the text alone.
#[verifier::external_body]
pub(crate) fn json_quote(s: &str) -> (r: String)
    ensures
        r@ == json_quoted(s@),
{
    serde_json::to_string(s).unwrap_or_default()
}

/// The path that each backend answers on.
pub open spec fn endpoint_path(interface: Interface) -> Seq<char> {
    match interface {
        Interface::Ollama => "/api/chat"@,
        Interface::Llamacpp => "/v1/chat/completions"@,
    }
}

/// The URL of a backend on `host`.
pub open spec fn endpoint(interface: Interface, host: Seq<char>) -> Seq<char> {
    strip_trailing_slashes(host) + endpoint_path(interface)
}

/// The text that carries the image: the base64 itself for the chat-style
/// backend, a JPEG data URL for the OpenAI-compatible one.
pub open spec fn image_text(interface: Interface, encoded: Seq<char>) -> Seq<char> {
    match interface {
        Interface::Ollama => encoded,
        Interface::Llamacpp => "data:image/jpeg;base64,"@ + encoded,
    }
}

/// A request body around JSON literals for the model, the prompt and the
/// image text.
pub open spec fn body_template(
    interface: Interface,
    model_json: Seq<char>,
    prompt_json: Seq<char>,
    image_json: Seq<char>,
) -> Seq<char> {
    match interface {
        Interface::Ollama => "{\"model\":"@ + model_json
            + ",\"messages\":[{\"role\":\"user\",\"content\":"@ + prompt_json + ",\"images\":["@
            + image_json + "]}],\"stream\":false}"@,
        Interface::Llamacpp => "{\"model\":"@ + model_json
            + ",\"messages\":[{\"role\":\"user\",\"content\":[{\"type\":\"text\",\"text\":"@
            + prompt_json + "},{\"type\":\"image_url\",\"image_url\":{\"url\":"@ + image_json
            + "}}]}],\"stream\":false}"@,
    }
}

pub open spec fn request_body_spec(
    interface: Interface,
    model: Seq<char>,
    prompt: Seq<char>,
    image: Seq<u8>,
) -> Seq<char> {
    body_template(
        interface,
        json_quoted(model),
        json_quoted(prompt),
        json_quoted(image_text(interface, base64_of(image))),
    )
}

/// The URL to post to on `host`: the host without trailing slashes, then
/// the backend's path.
pub fn endpoint_url(interface: Interface, host: &str) -> (r: String)
    ensures
        r@ == endpoint(interface, host@),
{
    let base = trim_trailing_slashes(host);
    match interface {
        Interface::Ollama => base.concat("/api/chat"),
        Interface::Llamacpp => base.concat("/v1/chat/completions"),
    }
}

/// The text that carries the base64 image `encoded` for this backend.
pub fn image_field(interface: Interface, encoded: &str) -> (r: String)
    ensures
        r@ == image_text(interface, encoded@),
{
    match interface {
        Interface::Ollama => String::from_str(encoded),
        Interface::Llamacpp => String::from_str("data:image/jpeg;base64,").concat(encoded),
    }
}

/// Assembles a request body from the JSON literals of the model, the prompt
/// and the image text.
pub fn assemble_body(interface: Interface, model_json: &str, prompt_json: &str, image_json: &str) -> (r:
    String)
    ensures
        r@ == body_template(interface, model_json@, prompt_json@, image_json@),
{
    let mut body = String::from_str("{\"model\":");
    body.append(model_json);
    match interface {
        Interface::Ollama => {
            body.append(",\"messages\":[{\"role\":\"user\",\"content\":");
            body.append(prompt_json);
            body.append(",\"images\":[");
            body.append(image_json);
            body.append("]}],\"stream\":false}");
        },
        Interface::Llamacpp => {
            body.append(",\"messages\":[{\"role\":\"user\",\"content\":[{\"type\":\"text\",\"text\":");
            body.append(prompt_json);
            body.append("},{\"type\":\"image_url\",\"image_url\":{\"url\":");
            body.append(image_json);
            body.append("}}]}],\"stream\":false}");
        },
    }
    body
}

/// The JSON body that asks a backend to describe the image `image`.
pub fn request_body(interface: Interface, model: &str, prompt: &str, image: &[u8]) -> (r: String)
    ensures
        r@ == request_body_spec(interface, model@, prompt@, image@),
{
    let encoded = encode_base64(image);
    let image_json = json_quote(image_field(interface, encoded.as_str()).as_str());
    assemble_body(
        interface,
        json_quote(model).as_str(),
        json_quote(prompt).as_str(),
        image_json.as_str(),
    )
}

/// The value of the authorization header: the OpenAI-compatible backend
/// sends a bearer credential when one is configured; nothing is sent
/// otherwise.
pub fn bearer_header(interface: Interface, api_key: &Option<String>) -> (r: Option<String>)
    ensures
        interface == Interface::Ollama ==> r is None,
        interface == Interface::Llamacpp ==> (api_key is None <==> r is None),
        interface == Interface::Llamacpp && api_key is Some ==> r.unwrap()@ == "Bearer "@
            + api_key.unwrap()@,
{
    match interface {
        Interface::Ollama => None,
        Interface::Llamacpp => match api_key {
            Some(key) => Some(String::from_str("Bearer ").concat(key.as_str())),
            None => None,
        },
    }
}

/// The hard wait ceiling for one request: one second beyond the backend's
/// own timeout, saturating.
pub fn request_deadline_secs(timeout: u64) -> (r: u64)
    ensures
        r == if timeout == u64::MAX {
            u64::MAX as int
        } else {
            timeout + 1
        },
{
    timeout.saturating_add(1)
}

/// What came back from one request, as the transport reports it.
#[derive(Debug)]
pub enum CallOutcome {
    /// A response with its status code and body text.
    Response { status: u16, body: String },
    /// A success status whose body could not be read.
    Unreadable { error: String },
    /// No response: connection refused, name resolution, and the like.
    Transport { error: String },
    /// The deadline passed first.
    TimedOut,
}

pub open spec fn is_success_status(status: u16) -> bool {
    200 <= status && status <= 299
}

/// The text field where each backend puts its answer.
pub open spec fn content_of(interface: Interface, v: JsonValue) -> Option<Seq<char>> {
    let message = match interface {
        Interface::Ollama => crate::json::json_member(v, "message"@),
        Interface::Llamacpp => match crate::json::json_member(v, "choices"@) {
            Some(c) => match crate::json::json_element(c, 0) {
                Some(first) => crate::json::json_member(first, "message"@),
                None => None,
            },
            None => None,
        },
    };
    match crate::json::member_chain(message, "content"@) {
        Some(c) => crate::json::json_text(c),
        None => None,
    }
}

/// A trimmed answer is a description when it is not empty.
pub open spec fn accepted(trimmed: Seq<char>, filename: Seq<char>) -> Result<Seq<char>, ErrorView> {
    if trimmed.len() == 0 {
        Err(ErrorView::EmptyResponse { filename })
    } else {
        Ok(trimmed)
    }
}

/// The description that a parsed answer yields.
pub open spec fn json_description(interface: Interface, v: JsonValue, filename: Seq<char>) -> Result<
    Seq<char>,
    ErrorView,
> {
    match content_of(interface, v) {
        Some(c) => accepted(trimmed_of(c), filename),
        None => Err(ErrorView::EmptyResponse { filename }),
    }
}

pub open spec fn timeout_error(interface: Interface) -> ErrorView {
    match interface {
        Interface::Ollama => ErrorView::OllamaRequestTimeout,
        Interface::Llamacpp => ErrorView::LlamaCppRequestTimeout,
    }
}

/// What one request's outcome means, for every outcome but a body that is
/// not JSON, whose error carries the parser's message.
pub open spec fn call_result_spec(
    interface: Interface,
    filename: Seq<char>,
    outcome: CallOutcome,
    r: Result<Seq<char>, ErrorView>,
) -> bool {
    match outcome {
        CallOutcome::TimedOut => r == Err::<Seq<char>, ErrorView>(timeout_error(interface)),
        CallOutcome::Transport { error } => r == Err::<Seq<char>, ErrorView>(
            ErrorView::HttpError { status: 0, filename, response: error@ },
        ),
        CallOutcome::Unreadable { error } => r == Err::<Seq<char>, ErrorView>(
            ErrorView::ProcessingError { filename, error: error@ },
        ),
        CallOutcome::Response { status, body } => if !is_success_status(status) {
            r == Err::<Seq<char>, ErrorView>(
                ErrorView::HttpError { status, filename, response: body@ },
            )
        } else {
            match parsed_json(body@) {
                Some(v) => r == json_description(interface, v, filename),
                None => r matches Err(ErrorView::JsonParsing { filename: f, .. }) && f == filename,
            }
        },
    }
}

/// Turns a trimmed answer into a description, or `EmptyResponse` when
/// nothing is left.
pub fn accept_description(trimmed: String, filename: &str) -> (r: Result<String, ImageAnalysisError>)
    ensures
        text_result_view(r) == accepted(trimmed@, filename@),
{
    if trimmed.unicode_len() == 0 {
        Err(ImageAnalysisError::EmptyResponse { filename: String::from_str(filename) })
    } else {
        Ok(trimmed)
    }
}

/// The answer text that a backend put in its parsed response, if any.
pub fn response_content(interface: Interface, v: &JsonValue) -> (r: Option<&String>)
    ensures
        r matches Some(s) ==> content_of(interface, *v) == Some(s@),
        r is None ==> content_of(interface, *v) is None,
{
    let message = match interface {
        Interface::Ollama => v.member("message"),
        Interface::Llamacpp => match v.member("choices") {
            Some(c) => match c.element(0) {
                Some(first) => first.member("message"),
                None => None,
            },
            None => None,
        },
    };
    match message {
        Some(m) => match m.member("content") {
            Some(c) => c.as_text(),
            None => None,
        },
        None => None,
    }
}

/// The description held by a parsed response, read through the expected
/// shape when the response has it and by walking the tree by field names
/// otherwise: its answer text, trimmed, when present and not empty;
/// `EmptyResponse` otherwise.
pub fn description_from_json(interface: Interface, v: &JsonValue, filename: &str) -> (r: Result<
    String,
    ImageAnalysisError,
>)
    ensures
        text_result_view(r) == json_description(interface, *v, filename@),
{
    match interface {
        Interface::Ollama => {
            if let Some(answer) = ChatResponse::from_json(v) {
                return accept_description(trim(answer.message.content.as_str()), filename);
            }
        },
        Interface::Llamacpp => {
            if let Some(answer) = LlamaCppResponse::from_json(v) {
                if answer.choices.len() > 0 {
                    return accept_description(
                        trim(answer.choices[0].message.content.as_str()),
                        filename,
                    );
                } else {
                    return Err(
                        ImageAnalysisError::EmptyResponse { filename: String::from_str(filename) },
                    );
                }
            }
        },
    }
    match response_content(interface, v) {
        Some(c) => accept_description(trim(c.as_str()), filename),
        None => Err(ImageAnalysisError::EmptyResponse { filename: String::from_str(filename) }),
    }
}

/// What one request's outcome means for the file `filename`: a description,
/// or the error to record against the host.
pub fn call_result(interface: Interface, filename: &str, outcome: CallOutcome) -> (r: Result<
    String,
    ImageAnalysisError,
>)
    ensures
        call_result_spec(interface, filename@, outcome, text_result_view(r)),
{
    let name = String::from_str(filename);
    match outcome {
        CallOutcome::TimedOut => match interface {
            Interface::Ollama => Err(ImageAnalysisError::OllamaRequestTimeout),
            Interface::Llamacpp => Err(ImageAnalysisError::LlamaCppRequestTimeout),
        },
        CallOutcome::Transport { error } => Err(
            ImageAnalysisError::HttpError { status: 0, filename: name, response: error },
        ),
        CallOutcome::Unreadable { error } => Err(
            ImageAnalysisError::ProcessingError { filename: name, error },
        ),
        CallOutcome::Response { status, body } => {
            if status < 200 || status > 299 {
                Err(ImageAnalysisError::HttpError { status, filename: name, response: body })
            } else {
                match parse_json(body.as_str()) {
                    Ok(v) => description_from_json(interface, &v, filename),
                    Err(error) => Err(ImageAnalysisError::JsonParsing { filename: name, error }),
                }
            }
        },
    }
}

} // verus!
