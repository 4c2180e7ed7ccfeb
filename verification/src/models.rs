//! The values that travel through the proxy, each with the mathematical
//! value that the contracts speak of.

use crate::text::text_view;
use vstd::prelude::*;

verus! {

/// One entry of the model listing.
#[derive(Debug, PartialEq, Eq)]
pub struct Model {
    pub id: String,
}

/// The model listing.
#[derive(Debug, PartialEq, Eq)]
pub struct ModelsResponse {
    pub data: Vec<Model>,
}

/// One message of the conversation that a request carries.
#[derive(Debug, PartialEq, Eq)]
pub struct Message {
    pub role: String,
    pub content: String,
}

/// A chat-completion request: the model asked for and the conversation.
#[derive(Debug, PartialEq, Eq)]
pub struct ChatCompletionRequest {
    pub model: String,
    pub messages: Vec<Message>,
}

/// A function call in its normal form. `arguments` is a string that holds
/// JSON in its turn.
#[derive(Debug, PartialEq, Eq)]
pub struct FunctionCall {
    pub name: String,
    pub arguments: String,
}

/// The message of a choice: either text, or a function call in place of it.
#[derive(Debug, PartialEq, Eq)]
pub struct MessageResponse {
    pub role: String,
    pub content: Option<String>,
    pub function_call: Option<FunctionCall>,
}

/// One choice of a response.
#[derive(Debug, PartialEq, Eq)]
pub struct Choice {
    pub index: usize,
    pub message: MessageResponse,
    pub finish_reason: String,
}

/// A chat-completion response.
#[derive(Debug, PartialEq, Eq)]
pub struct ChatCompletionResponse {
    pub id: String,
    pub object: String,
    pub created: u64,
    pub choices: Vec<Choice>,
}

/// The value of a `Message`.
pub struct MessageView {
    pub role: Seq<char>,
    pub content: Seq<char>,
}

/// The value of a `ChatCompletionRequest`.
pub struct RequestView {
    pub model: Seq<char>,
    pub messages: Seq<MessageView>,
}

/// The value of a `FunctionCall`.
pub struct FunctionCallView {
    pub name: Seq<char>,
    pub arguments: Seq<char>,
}

/// The value of a `MessageResponse`.
pub struct MessageResponseView {
    pub role: Seq<char>,
    pub content: Option<Seq<char>>,
    pub function_call: Option<FunctionCallView>,
}

/// The value of a `Choice`.
pub struct ChoiceView {
    pub index: int,
    pub message: MessageResponseView,
    pub finish_reason: Seq<char>,
}

/// The value of a `ChatCompletionResponse`.
pub struct ResponseView {
    pub id: Seq<char>,
    pub object: Seq<char>,
    pub created: int,
    pub choices: Seq<ChoiceView>,
}

impl View for Model {
    type V = Seq<char>;

    open spec fn view(&self) -> Seq<char> {
        self.id@
    }
}

impl View for ModelsResponse {
    type V = Seq<Seq<char>>;

    open spec fn view(&self) -> Seq<Seq<char>> {
        Seq::new(self.data@.len(), |i: int| self.data@[i]@)
    }
}

impl View for Message {
    type V = MessageView;

    open spec fn view(&self) -> MessageView {
        MessageView { role: self.role@, content: self.content@ }
    }
}

impl View for ChatCompletionRequest {
    type V = RequestView;

    open spec fn view(&self) -> RequestView {
        RequestView {
            model: self.model@,
            messages: Seq::new(self.messages@.len(), |i: int| self.messages@[i]@),
        }
    }
}

impl View for FunctionCall {
    type V = FunctionCallView;

    open spec fn view(&self) -> FunctionCallView {
        FunctionCallView { name: self.name@, arguments: self.arguments@ }
    }
}

impl FunctionCallView {
    /// A call counts as found only under a name that is not empty.
    pub open spec fn is_found(self) -> bool {
        self.name.len() > 0
    }
}

/// A function call that may be missing, as its value.
pub open spec fn call_view(call: Option<FunctionCall>) -> Option<FunctionCallView> {
    match call {
        Some(c) => Some(c@),
        None => None,
    }
}

impl View for MessageResponse {
    type V = MessageResponseView;

    open spec fn view(&self) -> MessageResponseView {
        MessageResponseView {
            role: self.role@,
            content: text_view(self.content),
            function_call: call_view(self.function_call),
        }
    }
}

impl View for Choice {
    type V = ChoiceView;

    open spec fn view(&self) -> ChoiceView {
        ChoiceView {
            index: self.index as int,
            message: self.message@,
            finish_reason: self.finish_reason@,
        }
    }
}

impl View for ChatCompletionResponse {
    type V = ResponseView;

    open spec fn view(&self) -> ResponseView {
        ResponseView {
            id: self.id@,
            object: self.object@,
            created: self.created as int,
            choices: Seq::new(self.choices@.len(), |i: int| self.choices@[i]@),
        }
    }
}

} // verus!
