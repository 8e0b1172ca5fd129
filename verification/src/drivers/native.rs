//! What the driver that talks to each vendor in its own protocol decides.

use vstd::prelude::*;
use crate::drivers::{ChatCompletionResponse, TokenUsage};
use crate::json::Json;
use crate::prompt::{ChatPrompt, Message, Rendered};
use crate::retry::{HttpError, IsKnownTransient, LlmRetryResult, StatusCode};

verus! {

/// A failure of the web client, as far as the driver reads it.
#[derive(Debug, Clone, Copy, PartialEq, Eq, Structural)]
pub enum WebError {
    /// The request failed and the answer was no JSON.
    ResponseFailedNotJson,
    /// The request failed with a status.
    ResponseFailedStatus { status: StatusCode },
    /// The HTTP layer failed.
    Reqwest { error: HttpError },
    /// Any other failure.
    Other,
}

impl IsKnownTransient for WebError {
    open spec fn known_transient(&self) -> bool {
        match self {
            WebError::ResponseFailedNotJson => true,
            WebError::ResponseFailedStatus { status } => status.known_transient(),
            WebError::Reqwest { error } => error.known_transient(),
            WebError::Other => false,
        }
    }

    fn is_known_transient(&self) -> (b: bool) {
        match self {
            WebError::ResponseFailedNotJson => true,
            WebError::ResponseFailedStatus { status } => status.is_known_transient(),
            WebError::Reqwest { error } => error.is_known_transient(),
            WebError::Other => false,
        }
    }
}

/// A failure of a chat call, as far as the driver reads it.
#[derive(Debug, Clone, Copy, PartialEq, Eq, Structural)]
pub enum NativeError {
    /// The vendor answered without a chat response.
    NoChatResponse,
    /// The answer held an element that is no valid JSON.
    InvalidJsonResponseElement,
    /// The call to the vendor failed in the web client.
    WebCall { webc_error: WebError },
    /// Any other failure.
    Other,
}

impl IsKnownTransient for NativeError {
    open spec fn known_transient(&self) -> bool {
        match self {
            NativeError::NoChatResponse => true,
            NativeError::InvalidJsonResponseElement => true,
            NativeError::WebCall { webc_error } => webc_error.known_transient(),
            NativeError::Other => false,
        }
    }

    fn is_known_transient(&self) -> (b: bool) {
        match self {
            NativeError::NoChatResponse => true,
            NativeError::InvalidJsonResponseElement => true,
            NativeError::WebCall { webc_error } => webc_error.is_known_transient(),
            NativeError::Other => false,
        }
    }
}

} // verus!

verus! {

/// One part of what a user says.
#[derive(Debug, Clone, PartialEq, Eq)]
pub enum ContentPart {
    /// A text.
    Text { text: String },
    /// An image, as its content type and its Base64 data.
    Image { content_type: String, data: String },
}

/// What a message says.
#[derive(Debug, Clone, PartialEq, Eq)]
pub enum MessageContent {
    /// A single text.
    Text { text: String },
    /// Several parts, in order.
    Parts { parts: Vec<ContentPart> },
}

/// Who says a message.
#[derive(Debug, Clone, Copy, PartialEq, Eq, Structural)]
pub enum ChatRole {
    /// The user.
    User,
    /// The model.
    Assistant,
}

/// A message of a chat request.
#[derive(Debug, Clone, PartialEq, Eq)]
pub struct ChatMessage {
    /// Who says it.
    pub role: ChatRole,
    /// What it says.
    pub content: MessageContent,
}

/// A chat request.
#[derive(Debug, Clone, PartialEq, Eq)]
pub struct ChatRequest {
    /// The system prompt, where there is one.
    pub system: Option<String>,
    /// The messages, in order.
    pub messages: Vec<ChatMessage>,
}

/// Why a message cannot be sent.
#[derive(Debug, Clone, Copy, PartialEq, Eq, Structural)]
pub enum MessageFault {
    /// An image is no `data:` URL, so its content type is not known.
    UnknownContentType,
    /// A user message holds neither a text nor an image.
    NoContent,
}

impl MessageFault {
    /// The sentence that `message` returns.
    pub open spec fn message_spec(&self) -> Seq<char> {
        match self {
            MessageFault::UnknownContentType => "Don't know how to get content type for image"@,
            MessageFault::NoContent => "No text or images in user message"@,
        }
    }

    /// A sentence that describes the fault.
    pub fn message(&self) -> (s: String)
        ensures
            s@ == self.message_spec(),
    {
        match self {
            MessageFault::UnknownContentType => String::from_str(
                "Don't know how to get content type for image",
            ),
            MessageFault::NoContent => String::from_str("No text or images in user message"),
        }
    }
}

/// What a part holds, as plain values.
pub enum ContentPartView {
    Text { text: Seq<char> },
    Image { content_type: Seq<char>, data: Seq<char> },
}

impl View for ContentPart {
    type V = ContentPartView;

    open spec fn view(&self) -> ContentPartView {
        match self {
            ContentPart::Text { text } => ContentPartView::Text { text: text@ },
            ContentPart::Image { content_type, data } => ContentPartView::Image {
                content_type: content_type@,
                data: data@,
            },
        }
    }
}

/// What a message says, as plain values.
pub enum MessageContentView {
    Text { text: Seq<char> },
    Parts { parts: Seq<ContentPartView> },
}

impl View for MessageContent {
    type V = MessageContentView;

    open spec fn view(&self) -> MessageContentView {
        match self {
            MessageContent::Text { text } => MessageContentView::Text { text: text@ },
            MessageContent::Parts { parts } => MessageContentView::Parts {
                parts: Seq::new(parts@.len(), |i: int| parts@[i]@),
            },
        }
    }
}

/// A message as plain values: who says it, and what.
pub struct ChatMessageView {
    pub role: ChatRole,
    pub content: MessageContentView,
}

impl View for ChatMessage {
    type V = ChatMessageView;

    open spec fn view(&self) -> ChatMessageView {
        ChatMessageView { role: self.role, content: self.content@ }
    }
}

/// The part that stands for an image given as a `data:` URL.
pub open spec fn image_part(url: Seq<char>) -> ContentPartView {
    let parsed = crate::data_url::parse_data_url_spec(url)->Some_0;
    ContentPartView::Image { content_type: parsed.0, data: parsed.1 }
}

/// What stands against sending a message, if anything: an image that is no
/// `data:` URL; or a user message with nothing in it.
pub open spec fn message_fault(message: Message) -> Option<MessageFault> {
    match message {
        Message::User { text, images } => if exists|i: int|
            0 <= i < images@.len() && crate::data_url::parse_data_url_spec(
                (#[trigger] images@[i])@,
            ).is_none() {
            Some(MessageFault::UnknownContentType)
        } else if images@.len() == 0 && text.is_none() {
            Some(MessageFault::NoContent)
        } else {
            None
        },
        Message::Assistant { .. } => None,
    }
}

/// A message of a prompt as a message of a chat request: a user message with
/// images as parts, its text first; one without images as its text; an
/// assistant message as the JSON text of its value.
pub open spec fn chat_message(message: Message) -> ChatMessageView {
    match message {
        Message::User { text, images } => if images@.len() > 0 {
            ChatMessageView {
                role: ChatRole::User,
                content: MessageContentView::Parts {
                    parts: (match text {
                        Some(t) => seq![ContentPartView::Text { text: t@ }],
                        None => Seq::empty(),
                    }) + Seq::new(images@.len(), |i: int| image_part(images@[i]@)),
                },
            }
        } else {
            ChatMessageView {
                role: ChatRole::User,
                content: MessageContentView::Text { text: text->Some_0@ },
            }
        },
        Message::Assistant { json } => ChatMessageView {
            role: ChatRole::Assistant,
            content: MessageContentView::Text { text: crate::json::compact_json(json@) },
        },
    }
}

/// Convert a message of a prompt to a message of a chat request.
pub fn message_to_chat(message: &Message) -> (r: Result<ChatMessage, MessageFault>)
    ensures
        match message_fault(*message) {
            Some(fault) => r == Err::<ChatMessage, MessageFault>(fault),
            None => r matches Ok(m) && m@ == chat_message(*message),
        },
{
    match message {
        Message::User { text, images } => {
            if images.len() == 0 {
                return match text {
                    Some(t) => Ok(
                        ChatMessage {
                            role: ChatRole::User,
                            content: MessageContent::Text { text: t.clone() },
                        },
                    ),
                    None => Err(MessageFault::NoContent),
                };
            }
            let mut parts: Vec<ContentPart> = Vec::new();
            match text {
                Some(t) => {
                    parts.push(ContentPart::Text { text: t.clone() });
                },
                None => {},
            }
            let ghost head = parts@.len();
            let mut i: usize = 0;
            while i < images.len()
                invariant
                    i <= images@.len(),
                    images@.len() > 0,
                    *message == (Message::User { text: *text, images: *images }),
                    head == (if text.is_some() { 1int } else { 0int }),
                    parts@.len() == head + i,
                    text matches Some(t) ==> parts@[0]@ == (ContentPartView::Text { text: t@ }),
                    forall|k: int|
                        0 <= k < i ==> crate::data_url::parse_data_url_spec(
                            (#[trigger] images@[k])@,
                        ).is_some(),
                    forall|k: int|
                        0 <= k < i ==> (#[trigger] parts@[head + k])@ == image_part(images@[k]@),
                decreases images.len() - i,
            {
                match crate::data_url::parse_data_url(images[i].as_str()) {
                    Some((content_type, data)) => {
                        parts.push(ContentPart::Image { content_type, data });
                    },
                    None => {
                        assert(crate::data_url::parse_data_url_spec(images@[i as int]@).is_none());
                        return Err(MessageFault::UnknownContentType);
                    },
                }
                i += 1;
            }
            let content = MessageContent::Parts { parts };
            proof {
                let expected = chat_message(*message).content->Parts_parts;
                let found = content@->Parts_parts;
                assert(found.len() == expected.len());
                assert forall|k: int| 0 <= k < expected.len() implies found[k] == expected[k] by {
                    if k >= head {
                        assert(parts@[head + (k - head)]@ == image_part(images@[k - head]@));
                    }
                }
                assert(found =~= expected);
            }
            Ok(ChatMessage { role: ChatRole::User, content })
        },
        Message::Assistant { json } => Ok(
            ChatMessage {
                role: ChatRole::Assistant,
                content: MessageContent::Text { text: json.to_json_string() },
            },
        ),
    }
}

/// The fault of the first faulty message at or after `from`.
pub open spec fn first_fault(messages: Seq<Message>, from: int) -> Option<MessageFault>
    decreases messages.len() - from,
{
    if from < 0 || from >= messages.len() {
        None
    } else {
        match message_fault(messages[from]) {
            Some(fault) => Some(fault),
            None => first_fault(messages, from + 1),
        }
    }
}

/// Convert a rendered prompt to a chat request: the developer message is the
/// system prompt, and each message is converted in order. The first message
/// that cannot be sent ends the conversion with its fault.
pub fn to_chat_request(prompt: &ChatPrompt<Rendered>) -> (r: Result<ChatRequest, MessageFault>)
    ensures
        match first_fault(prompt.messages@, 0) {
            Some(fault) => r == Err::<ChatRequest, MessageFault>(fault),
            None => r matches Ok(request) && (match (request.system, prompt.developer) {
                (Some(a), Some(b)) => a@ == b@,
                (None, None) => true,
                _ => false,
            }) && request.messages@.len() == prompt.messages@.len() && forall|i: int|
                0 <= i < prompt.messages@.len() ==> (#[trigger] request.messages@[i])@
                    == chat_message(prompt.messages@[i]),
        },
{
    let mut messages: Vec<ChatMessage> = Vec::new();
    let mut i: usize = 0;
    while i < prompt.messages.len()
        invariant
            i <= prompt.messages@.len(),
            messages@.len() == i,
            first_fault(prompt.messages@, 0) == first_fault(prompt.messages@, i as int),
            forall|k: int|
                0 <= k < i ==> (#[trigger] messages@[k])@ == chat_message(prompt.messages@[k]),
        decreases prompt.messages.len() - i,
    {
        match message_to_chat(&prompt.messages[i]) {
            Ok(message) => {
                messages.push(message);
            },
            Err(fault) => {
                return Err(fault);
            },
        }
        i += 1;
    }
    let system = match &prompt.developer {
        Some(developer) => Some(developer.clone()),
        None => None,
    };
    Ok(ChatRequest { system, messages })
}

/// The members of an object without those under `key`, in order.
pub open spec fn without_key(members: Seq<(String, Json)>, key: Seq<char>) -> Seq<(String, Json)>
    decreases members.len(),
{
    if members.len() == 0 {
        Seq::empty()
    } else if members.last().0@ == key {
        without_key(members.drop_last(), key)
    } else {
        without_key(members.drop_last(), key).push(members.last())
    }
}

/// Prepare a schema for the request: it must be an object, and its `$schema`
/// member, which only names the dialect, is left out. `None` for a schema that
/// is no object.
pub fn prepare_schema(schema: Json) -> (r: Option<Json>)
    ensures
        match schema {
            Json::Object(members) => r matches Some(Json::Object(kept)) && kept@ == without_key(
                members@,
                "$schema"@,
            ),
            _ => r.is_none(),
        },
{
    match schema {
        Json::Object(members) => {
            let mut kept: Vec<(String, Json)> = Vec::new();
            let ghost all = members@;
            let total = members.len();
            let mut seen: usize = 0;
            for member in it: members
                invariant
                    it.seq() == all,
                    all.len() == total,
                    seen == it.index(),
                    kept@ == without_key(all.take(seen as int), "$schema"@),
            {
                proof {
                    assert(all.take(seen + 1).drop_last() =~= all.take(seen as int));
                }
                if !crate::text::str_eq(member.0.as_str(), "$schema") {
                    kept.push(member);
                }
                seen += 1;
            }
            proof {
                assert(all.take(seen as int) =~= all);
            }
            Some(Json::Object(kept))
        },
        _ => None,
    }
}

/// What is wrong with a response. Both faults are fatal.
#[derive(Debug, Clone, Copy, PartialEq, Eq, Structural)]
pub enum ResponseFault {
    /// The response holds no content.
    NoContent,
    /// The content is no text.
    NotText,
}

impl ResponseFault {
    /// The sentence that `message` returns.
    pub open spec fn message_spec(&self) -> Seq<char> {
        match self {
            ResponseFault::NoContent => "No content in response"@,
            ResponseFault::NotText => "Expected text content in response"@,
        }
    }

    /// A sentence that describes the fault.
    pub fn message(&self) -> (s: String)
        ensures
            s@ == self.message_spec(),
    {
        match self {
            ResponseFault::NoContent => String::from_str("No content in response"),
            ResponseFault::NotText => String::from_str("Expected text content in response"),
        }
    }
}

/// The token usage that a response reports: it counts only where both
/// numbers are there.
pub open spec fn reported_usage(prompt_tokens: Option<i32>, completion_tokens: Option<i32>)
    -> Option<TokenUsage> {
    match (prompt_tokens, completion_tokens) {
        (Some(p), Some(c)) => Some(
            TokenUsage {
                prompt_tokens: crate::drivers::token_count(p),
                completion_tokens: crate::drivers::token_count(c),
            },
        ),
        _ => None,
    }
}

/// Read a response: the answer of the model as a JSON value, with the token
/// usage.
///
/// `content` is `None` for a response without content, and holds `None` for a
/// content that is no text: each is a fatal error with the fault's sentence.
/// A text that is no JSON is a transient error.
pub fn read_chat_response(
    content: Option<Option<&str>>,
    prompt_tokens: Option<i32>,
    completion_tokens: Option<i32>,
) -> (r: LlmRetryResult<ChatCompletionResponse>)
    ensures
        match content {
            None => r matches LlmRetryResult::Fatal { error } && error@
                == ResponseFault::NoContent.message_spec(),
            Some(None) => r matches LlmRetryResult::Fatal { error } && error@
                == ResponseFault::NotText.message_spec(),
            Some(Some(text)) => match crate::json::json_document(text@) {
                None => r is Transient,
                Some(document) => r matches LlmRetryResult::Okay { output } && output.response@
                    == document && output.token_usage == reported_usage(
                    prompt_tokens,
                    completion_tokens,
                ),
            },
        },
{
    let text = match content {
        None => {
            return LlmRetryResult::Fatal { error: ResponseFault::NoContent.message() };
        },
        Some(None) => {
            return LlmRetryResult::Fatal { error: ResponseFault::NotText.message() };
        },
        Some(Some(text)) => text,
    };
    match crate::json::json_from_str(text) {
        Ok(document) => {
            let token_usage = match (prompt_tokens, completion_tokens) {
                (Some(p), Some(c)) => Some(
                    TokenUsage {
                        prompt_tokens: crate::drivers::token_count_from_i32(p),
                        completion_tokens: crate::drivers::token_count_from_i32(c),
                    },
                ),
                _ => None,
            };
            LlmRetryResult::Okay { output: ChatCompletionResponse { response: document, token_usage } }
        },
        Err(reason) => {
            let mut error = String::from_str("Error parsing response content: ");
            error.append(text);
            error.append(": ");
            error.append(reason.as_str());
            LlmRetryResult::Transient { error }
        },
    }
}

} // verus!
