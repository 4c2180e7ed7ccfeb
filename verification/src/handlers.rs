//! What the request handlers decide: the model listing, the request that
//! goes upstream, and the response that is made of what came back.

use crate::config::{AppConfig, LlmConfig, LlmConfigView};
use crate::extract::{extract_function_calls, extraction_of, Provenance};
use crate::json::{json_parses, json_string_at, string_at};
use crate::models::{
    call_view, ChatCompletionRequest, ChatCompletionResponse, Choice, ChoiceView, FunctionCall,
    FunctionCallView, MessageResponse, MessageResponseView, Model, ModelsResponse, RequestView,
    ResponseView,
};
use crate::text::text_view;
use vstd::prelude::*;

verus! {

/// Why the upstream gave no text.
#[derive(Clone, Copy, Debug, PartialEq, Eq, Structural)]
pub enum UpstreamError {
    /// The upstream could not be reached, or the connection failed.
    Transport,
    /// The body that came back could not be read as text.
    Decode,
}

/// Lists the models that the proxy offers: the one exposed name, whatever
/// the upstream model is called.
pub fn get_models(config: &AppConfig) -> (r: ModelsResponse)
    ensures
        r@ == seq![config@.exposed_model_name],
{
    let mut data: Vec<Model> = Vec::new();
    data.push(Model { id: config.exposed_model_name.clone() });
    let r = ModelsResponse { data };
    assert(r@ =~= seq![config@.exposed_model_name]);
    r
}

/// Makes the request that goes upstream: the conversation as it came, under
/// the upstream's own model name.
pub fn forward_request(request: ChatCompletionRequest, llm: &LlmConfig) -> (r:
    ChatCompletionRequest)
    ensures
        r@ == (RequestView {
            model: llm@.passthrough_model_name,
            messages: request@.messages,
        }),
{
    ChatCompletionRequest { model: llm.passthrough_model_name.clone(), messages: request.messages }
}

/// Header lines as pairs of name and value.
pub open spec fn headers_view(headers: Seq<(String, String)>) -> Seq<(Seq<char>, Seq<char>)> {
    Seq::new(headers.len(), |i: int| (headers[i].0@, headers[i].1@))
}

/// The header lines of the upstream request: the content type, and the
/// bearer credential where a key is configured and not empty.
pub open spec fn headers_of(llm: LlmConfigView) -> Seq<(Seq<char>, Seq<char>)> {
    let content_type = ("Content-Type"@, "application/json"@);
    match llm.api_key {
        Some(key) if key.len() > 0 => seq![content_type, ("Authorization"@, "Bearer "@ + key)],
        _ => seq![content_type],
    }
}

/// Makes the header lines of the upstream request.
pub fn upstream_headers(llm: &LlmConfig) -> (r: Vec<(String, String)>)
    ensures
        headers_view(r@) == headers_of(llm@),
{
    let mut headers: Vec<(String, String)> = Vec::new();
    headers.push((String::from_str("Content-Type"), String::from_str("application/json")));
    if let Some(key) = &llm.api_key {
        if !key.as_str().is_empty() {
            let mut value = String::from_str("Bearer ");
            value.append(key.as_str());
            headers.push((String::from_str("Authorization"), value));
        }
    }
    assert(headers_view(headers@) =~= headers_of(llm@));
    headers
}

/// The function call that a name and arguments make, where both are there
/// and the name is not empty.
pub open spec fn call_of_strings(
    name: Option<Seq<char>>,
    arguments: Option<Seq<char>>,
) -> Option<FunctionCallView> {
    match (name, arguments) {
        (Some(n), Some(a)) if n.len() > 0 => Some(FunctionCallView { name: n, arguments: a }),
        _ => None,
    }
}

/// Makes a function call of a name and arguments, where both are there and
/// the name is not empty.
pub fn call_from_strings(name: Option<String>, arguments: Option<String>) -> (r: Option<
    FunctionCall,
>)
    ensures
        call_view(r) == call_of_strings(text_view(name), text_view(arguments)),
        r matches Some(call) ==> call@.is_found(),
{
    match (name, arguments) {
        (Some(n), Some(a)) => {
            if n.as_str().is_empty() {
                None
            } else {
                Some(FunctionCall { name: n, arguments: a })
            }
        },
        _ => None,
    }
}

/// The function call that a JSON payload holds: the strings `name` and
/// `arguments` of the object itself or, failing that, of the object under
/// its key `function_call`.
pub open spec fn function_call_in(payload: Seq<char>) -> Option<FunctionCallView> {
    let top = call_of_strings(
        json_string_at(payload, "/name"@),
        json_string_at(payload, "/arguments"@),
    );
    if top is Some {
        top
    } else {
        call_of_strings(
            json_string_at(payload, "/function_call/name"@),
            json_string_at(payload, "/function_call/arguments"@),
        )
    }
}

/// Reads the function call that a JSON payload holds.
pub fn decode_function_call(payload: &str) -> (r: Option<FunctionCall>)
    ensures
        call_view(r) == function_call_in(payload@),
        r matches Some(call) ==> call@.is_found(),
{
    let top = call_from_strings(string_at(payload, "/name"), string_at(payload, "/arguments"));
    if top.is_some() {
        top
    } else {
        call_from_strings(
            string_at(payload, "/function_call/name"),
            string_at(payload, "/function_call/arguments"),
        )
    }
}

/// The message that carries text.
pub open spec fn text_message(text: Seq<char>) -> MessageResponseView {
    MessageResponseView { role: "assistant"@, content: Some(text), function_call: None }
}

/// The message that carries a function call in place of text.
pub open spec fn call_message(call: FunctionCallView) -> MessageResponseView {
    MessageResponseView { role: "assistant"@, content: None, function_call: Some(call) }
}

/// The message for a reply, given what the pipeline made of it and the call
/// that its payload holds: the call where the payload was extracted and
/// holds one, the text of the reply otherwise.
pub open spec fn message_for(
    text: Seq<char>,
    provenance: Provenance,
    call: Option<FunctionCallView>,
) -> MessageResponseView {
    match call {
        Some(c) if provenance != Provenance::Passthrough => call_message(c),
        _ => text_message(text),
    }
}

/// Makes the message for a reply, given what the pipeline made of it and the
/// call that its payload holds.
pub fn shape_message(text: &str, provenance: Provenance, call: Option<FunctionCall>) -> (r:
    MessageResponse)
    ensures
        r@ == message_for(text@, provenance, call_view(call)),
{
    match call {
        Some(c) => {
            if provenance != Provenance::Passthrough {
                MessageResponse {
                    role: String::from_str("assistant"),
                    content: None,
                    function_call: Some(c),
                }
            } else {
                MessageResponse {
                    role: String::from_str("assistant"),
                    content: Some(text.to_owned()),
                    function_call: None,
                }
            }
        },
        None => MessageResponse {
            role: String::from_str("assistant"),
            content: Some(text.to_owned()),
            function_call: None,
        },
    }
}

/// The message that the proxy returns for the text of a reply.
pub open spec fn message_of(text: Seq<char>) -> MessageResponseView {
    let (payload, provenance) = extraction_of(text);
    message_for(text, provenance, function_call_in(payload))
}

/// A message carries text or a call, never both and never neither; a call
/// that it carries has a name, and was read from a payload that is JSON.
pub proof fn lemma_message_is_text_or_call(text: Seq<char>)
    ensures
        message_of(text).content is Some <==> message_of(text).function_call is None,
        message_of(text).content matches Some(content) ==> content == text,
        message_of(text).function_call matches Some(call) ==> {
            &&& call.is_found()
            &&& extraction_of(text).1 != Provenance::Passthrough
            &&& json_parses(extraction_of(text).0)
            &&& function_call_in(extraction_of(text).0) == Some(call)
        },
{
}

/// Runs the pipeline on the text of a reply and makes the message for it: a
/// function-call message where a payload was extracted and holds a call,
/// the text as it came otherwise.
pub fn normalize_message(text: &str) -> (r: MessageResponse)
    ensures
        r@ == message_of(text@),
{
    let extraction = extract_function_calls(text);
    let call = if extraction.provenance != Provenance::Passthrough {
        decode_function_call(extraction.payload.as_str())
    } else {
        None
    };
    shape_message(text, extraction.provenance, call)
}

/// The identifier of a response that carries the upstream's reply.
pub open spec fn completion_id() -> Seq<char> {
    "chatcmpl-123"@
}

/// The identifier of a response that reports an upstream failure.
pub open spec fn error_id() -> Seq<char> {
    "chatcmpl-error"@
}

/// The response for the replies in `contents`: one choice for each, in
/// order, with the message that the proxy makes of it.
pub open spec fn response_of(contents: Seq<Seq<char>>, created: u64) -> ResponseView {
    ResponseView {
        id: completion_id(),
        object: "chat.completion"@,
        created: created as int,
        choices: Seq::new(
            contents.len(),
            |i: int|
                ChoiceView { index: i, message: message_of(contents[i]), finish_reason: "stop"@ },
        ),
    }
}

/// Replies as the characters that the contracts speak of.
pub open spec fn contents_view(contents: Seq<String>) -> Seq<Seq<char>> {
    Seq::new(contents.len(), |i: int| contents[i]@)
}

/// Assembles the response for the replies that the upstream gave.
pub fn assemble_response(contents: &Vec<String>, created: u64) -> (r: ChatCompletionResponse)
    ensures
        r@ == response_of(contents_view(contents@), created),
{
    let mut choices: Vec<Choice> = Vec::new();
    let mut i: usize = 0;
    while i < contents.len()
        invariant
            i <= contents.len(),
            choices.len() == i,
            forall|j: int|
                0 <= j < i ==> (#[trigger] choices@[j])@ == (ChoiceView {
                    index: j,
                    message: message_of(contents@[j]@),
                    finish_reason: "stop"@,
                }),
        decreases contents.len() - i,
    {
        let message = normalize_message(contents[i].as_str());
        choices.push(Choice { index: i, message, finish_reason: String::from_str("stop") });
        i += 1;
    }
    let r = ChatCompletionResponse {
        id: String::from_str("chatcmpl-123"),
        object: String::from_str("chat.completion"),
        created,
        choices,
    };
    assert(r@.choices =~= response_of(contents_view(contents@), created).choices);
    r
}

/// Both identifiers begin with the same nine characters.
pub proof fn lemma_identifiers_share_prefix()
    ensures
        completion_id().subrange(0, 9) == "chatcmpl-"@,
        error_id().subrange(0, 9) == "chatcmpl-"@,
{
    reveal_strlit("chatcmpl-123");
    reveal_strlit("chatcmpl-error");
    reveal_strlit("chatcmpl-");
    assert(completion_id().subrange(0, 9) =~= "chatcmpl-"@);
    assert(error_id().subrange(0, 9) =~= "chatcmpl-"@);
}

/// The response that reports an upstream failure: one choice that says so,
/// with the finish reason `error`.
pub open spec fn error_response_of(created: u64) -> ResponseView {
    ResponseView {
        id: error_id(),
        object: "error"@,
        created: created as int,
        choices: seq![
            ChoiceView {
                index: 0,
                message: text_message("An error occurred calling the upstream LLM."@),
                finish_reason: "error"@,
            },
        ],
    }
}

/// Makes the response that reports an upstream failure.
pub fn error_response(created: u64) -> (r: ChatCompletionResponse)
    ensures
        r@ == error_response_of(created),
{
    let mut choices: Vec<Choice> = Vec::new();
    choices.push(
        Choice {
            index: 0,
            message: MessageResponse {
                role: String::from_str("assistant"),
                content: Some(String::from_str("An error occurred calling the upstream LLM.")),
                function_call: None,
            },
            finish_reason: String::from_str("error"),
        },
    );
    let r = ChatCompletionResponse {
        id: String::from_str("chatcmpl-error"),
        object: String::from_str("error"),
        created,
        choices,
    };
    assert(r@.choices =~= error_response_of(created).choices);
    r
}

/// What counts as the upstream's reply: the body that came back, unless it
/// could not be read as text, or is empty under a status that reports
/// failure.
pub open spec fn reply_of(success: bool, body: Option<Seq<char>>) -> Result<
    Seq<char>,
    UpstreamError,
> {
    match body {
        None => Err(UpstreamError::Decode),
        Some(text) => if !success && text.len() == 0 {
            Err(UpstreamError::Transport)
        } else {
            Ok(text)
        },
    }
}

/// The outcome of an upstream call, as the contracts speak of it.
pub open spec fn outcome_view(upstream: Result<String, UpstreamError>) -> Result<
    Seq<char>,
    UpstreamError,
> {
    match upstream {
        Ok(text) => Ok(text@),
        Err(e) => Err(e),
    }
}

/// Decides what counts as the upstream's reply. `success` says whether the
/// status reported success, `body` is the body as text, `None` where it
/// could not be read as text.
pub fn classify_reply(success: bool, body: Option<String>) -> (r: Result<String, UpstreamError>)
    ensures
        outcome_view(r) == reply_of(success, text_view(body)),
{
    match body {
        None => Err(UpstreamError::Decode),
        Some(text) => {
            if !success && text.as_str().is_empty() {
                Err(UpstreamError::Transport)
            } else {
                Ok(text)
            }
        },
    }
}

/// The text that the upstream gave, if it gave one.
pub open spec fn reply_view(upstream: Result<String, UpstreamError>) -> Option<Seq<char>> {
    match upstream {
        Ok(text) => Some(text@),
        Err(_) => None,
    }
}

/// The response that the proxy returns for what came back from upstream.
pub open spec fn completion_of(reply: Option<Seq<char>>, created: u64) -> ResponseView {
    match reply {
        Some(text) => response_of(seq![text], created),
        None => error_response_of(created),
    }
}

/// Makes the response for what came back from upstream: the reply as one
/// choice, run through the pipeline, or the error response where the
/// upstream failed, whatever the failure was.
pub fn chat_completions(upstream: Result<String, UpstreamError>, created: u64) -> (r:
    ChatCompletionResponse)
    ensures
        r@ == completion_of(reply_view(upstream), created),
{
    match upstream {
        Ok(text) => {
            let mut contents: Vec<String> = Vec::new();
            contents.push(text);
            assert(contents_view(contents@) =~= seq![text@]);
            assemble_response(&contents, created)
        },
        Err(_) => error_response(created),
    }
}

} // verus!
