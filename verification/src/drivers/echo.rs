//! Echo driver for testing.
//!
//! This driver echoes back the last user message as `{ "echo": <text> }`. It
//! checks that the response schema is an internal schema with a single
//! "echo" string property.

use vstd::prelude::*;
use crate::drivers::ChatCompletionResponse;
use crate::json::{json_view, lemma_members_view, member, members_view, Json, JsonView};
use crate::prompt::{ChatPrompt, Message, Rendered};
use crate::retry::LlmRetryResult;
use crate::schema::{InternalSchemaDetails, ScalarType, Schema};
use crate::text::{decimal_digits, push_decimal, str_eq};

verus! {

/// Echo driver for testing.
#[derive(Debug, Clone, Copy, PartialEq, Eq, Structural)]
pub struct EchoDriver;

/// Why the echo driver refuses a request.
#[derive(Debug, Clone, Copy, PartialEq, Eq, Structural)]
pub enum EchoError {
    /// The schema is not an internal schema of an object.
    NotInternalObject,
    /// The object has `found` properties and not one.
    PropertyCount { found: usize },
    /// The one property is not named `echo`.
    MissingEchoProperty,
    /// The property `echo` is not a plain string.
    EchoNotString,
    /// No user message of the prompt has a text.
    NoUserMessage,
}

impl EchoError {
    /// The sentence that `message` returns.
    pub open spec fn message_spec(&self) -> Seq<char> {
        match self {
            EchoError::NotInternalObject =>
                "Echo driver requires an internal schema of type Object"@,
            EchoError::PropertyCount { found } =>
                "Echo driver requires exactly one property in the schema, found "@
                    + decimal_digits(*found as nat),
            EchoError::MissingEchoProperty =>
                "Echo driver requires a property named 'echo' in the schema"@,
            EchoError::EchoNotString =>
                "Echo driver requires the 'echo' property to be a string type"@,
            EchoError::NoUserMessage => "No user message found in prompt"@,
        }
    }

    /// A sentence that describes the error.
    pub fn message(&self) -> (s: String)
        ensures
            s@ == self.message_spec(),
    {
        match self {
            EchoError::NotInternalObject => String::from_str(
                "Echo driver requires an internal schema of type Object",
            ),
            EchoError::PropertyCount { found } => {
                let mut s = String::from_str(
                    "Echo driver requires exactly one property in the schema, found ",
                );
                push_decimal(&mut s, *found as u64);
                s
            },
            EchoError::MissingEchoProperty => String::from_str(
                "Echo driver requires a property named 'echo' in the schema",
            ),
            EchoError::EchoNotString => String::from_str(
                "Echo driver requires the 'echo' property to be a string type",
            ),
            EchoError::NoUserMessage => String::from_str("No user message found in prompt"),
        }
    }
}

/// What keeps a schema from being the schema of an echo: it must be an
/// internal schema of an object with exactly one property, named `echo`, which
/// is a string without a list of allowed values.
pub open spec fn echo_schema_fault(schema: Schema) -> Option<EchoError> {
    match schema {
        Schema::Internal(internal) => match internal.details {
            InternalSchemaDetails::Object { properties, .. } => if properties@.len() != 1 {
                Some(EchoError::PropertyCount { found: properties@.len() as usize })
            } else if properties@[0].0@ != "echo"@ {
                Some(EchoError::MissingEchoProperty)
            } else {
                match properties@[0].1.details {
                    InternalSchemaDetails::Scalar {
                        scalar_type: ScalarType::String,
                        allowed_values: None,
                    } => None,
                    _ => Some(EchoError::EchoNotString),
                }
            },
            _ => Some(EchoError::NotInternalObject),
        },
        _ => Some(EchoError::NotInternalObject),
    }
}

/// Validate that the schema matches the expected format: an object with a
/// single "echo" property of type string.
pub fn validate_schema(schema: &Schema) -> (r: Result<(), EchoError>)
    ensures
        r == match echo_schema_fault(*schema) {
            Some(e) => Err::<(), EchoError>(e),
            None => Ok(()),
        },
{
    let properties = match schema {
        Schema::Internal(internal) => match &internal.details {
            InternalSchemaDetails::Object { properties, .. } => properties,
            _ => {
                return Err(EchoError::NotInternalObject);
            },
        },
        _ => {
            return Err(EchoError::NotInternalObject);
        },
    };
    if properties.len() != 1 {
        return Err(EchoError::PropertyCount { found: properties.len() });
    }
    if !str_eq(properties[0].0.as_str(), "echo") {
        return Err(EchoError::MissingEchoProperty);
    }
    match &properties[0].1.details {
        InternalSchemaDetails::Scalar { scalar_type, allowed_values } => {
            match scalar_type {
                ScalarType::String => {
                    if allowed_values.is_none() {
                        Ok(())
                    } else {
                        Err(EchoError::EchoNotString)
                    }
                },
                _ => Err(EchoError::EchoNotString),
            }
        },
        _ => Err(EchoError::EchoNotString),
    }
}

/// The text of the last user message that has one.
pub open spec fn last_user_text(messages: Seq<Message>) -> Option<Seq<char>>
    decreases messages.len(),
{
    if messages.len() == 0 {
        None
    } else {
        match messages.last() {
            Message::User { text: Some(text), .. } => Some(text@),
            _ => last_user_text(messages.drop_last()),
        }
    }
}

/// Extract the text from the last user message.
pub fn extract_last_user_message(messages: &[Message]) -> (r: Result<String, EchoError>)
    ensures
        match r {
            Ok(text) => last_user_text(messages@) == Some(text@),
            Err(e) => e == EchoError::NoUserMessage && last_user_text(messages@).is_none(),
        },
{
    let mut i: usize = messages.len();
    assert(messages@.take(messages@.len() as int) =~= messages@);
    while i > 0
        invariant
            i <= messages@.len(),
            last_user_text(messages@) == last_user_text(messages@.take(i as int)),
        decreases i,
    {
        proof {
            assert(messages@.take(i as int).drop_last() =~= messages@.take(i - 1));
            assert(messages@.take(i as int).last() == messages@[i - 1]);
        }
        match &messages[i - 1] {
            Message::User { text, .. } => {
                match text {
                    Some(t) => {
                        return Ok(t.clone());
                    },
                    None => {},
                }
            },
            _ => {},
        }
        i -= 1;
    }
    Err(EchoError::NoUserMessage)
}

/// The response of the echo driver to `text`: the object `{"echo": text}`.
pub open spec fn echo_response(text: Seq<char>) -> JsonView {
    JsonView::Object(seq![("echo"@, JsonView::Text(text))])
}

impl EchoDriver {
    /// Create a new echo driver.
    pub fn new() -> (driver: Self) {
        EchoDriver
    }

    /// Run a "chat completion" request: check the schema of the prompt, then
    /// answer with the text of the last user message. No tokens are used, and
    /// none are reported.
    ///
    /// Both refusals are fatal: asking again changes neither the schema nor
    /// the messages.
    pub fn chat_completion(&self, prompt: &ChatPrompt<Rendered>) -> (r: LlmRetryResult<
        ChatCompletionResponse,
    >)
        ensures
            match echo_schema_fault(prompt.response_schema) {
                Some(e) => r matches LlmRetryResult::Fatal { error } && error@ == e.message_spec(),
                None => match last_user_text(prompt.messages@) {
                    None => r matches LlmRetryResult::Fatal { error } && error@
                        == EchoError::NoUserMessage.message_spec(),
                    Some(text) => r matches LlmRetryResult::Okay { output } && output.response@
                        == echo_response(text) && output.token_usage.is_none(),
                },
            },
    {
        match validate_schema(&prompt.response_schema) {
            Err(e) => {
                return LlmRetryResult::Fatal { error: e.message() };
            },
            Ok(_) => {},
        }
        let text = match extract_last_user_message(prompt.messages.as_slice()) {
            Ok(text) => text,
            Err(e) => {
                return LlmRetryResult::Fatal { error: e.message() };
            },
        };
        let mut response: Vec<(String, Json)> = Vec::new();
        response.push(member("echo", Json::Text(text)));
        proof {
            lemma_members_view(response@);
            assert(members_view(response@) =~= seq![("echo"@, JsonView::Text(text@))]);
        }
        LlmRetryResult::Okay {
            output: ChatCompletionResponse {
                response: Json::Object(response),
                token_usage: None,
            },
        }
    }
}

} // verus!
