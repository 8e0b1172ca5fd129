//! What the driver for AWS Bedrock decides.

use vstd::prelude::*;
use crate::json::{
    array_of, array_of_one, json_text, member, object_of_one, object_of_three, object_of_two, Json,
    JsonNumber, JsonNumberView, JsonView,
};
use crate::drivers::{ChatCompletionResponse, TokenUsage};
use crate::prompt::{ChatPrompt, Message, PromptError, Rendered};
use crate::retry::{IsKnownTransient, LlmRetryResult, StatusCode};
use crate::text::str_eq;

verus! {

/// The failures of a `converse` call that the driver tells apart.
#[derive(Debug, Clone, Copy, PartialEq, Eq, Structural)]
pub enum ConverseError {
    /// An internal error of the service.
    InternalServerException,
    /// The model is not ready yet.
    ModelNotReadyException,
    /// The model took too long.
    ModelTimeoutException,
    /// The service is unavailable.
    ServiceUnavailableException,
    /// The service throttles the caller.
    ThrottlingException,
    /// Any other failure.
    Other,
}

impl IsKnownTransient for ConverseError {
    open spec fn known_transient(&self) -> bool {
        *self != ConverseError::Other
    }

    fn is_known_transient(&self) -> (b: bool) {
        match self {
            ConverseError::Other => false,
            _ => true,
        }
    }
}

/// A failure of a call through the AWS SDK, as far as the driver reads it.
#[derive(Debug, PartialEq, Eq)]
pub enum SdkError<E> {
    /// The call timed out.
    TimeoutError,
    /// The request could not be sent.
    DispatchFailure { is_io: bool, is_timeout: bool },
    /// A response came that could not be read.
    ResponseError { status: StatusCode },
    /// The service answered with an error of its own.
    ServiceError { err: E },
    /// Any other failure.
    Other,
}

impl<E: IsKnownTransient> IsKnownTransient for SdkError<E> {
    open spec fn known_transient(&self) -> bool {
        match self {
            SdkError::TimeoutError => true,
            SdkError::DispatchFailure { is_io, is_timeout } => *is_io || *is_timeout,
            SdkError::ResponseError { status } => status.known_transient(),
            SdkError::ServiceError { err } => err.known_transient(),
            SdkError::Other => false,
        }
    }

    fn is_known_transient(&self) -> (b: bool) {
        match self {
            SdkError::TimeoutError => true,
            SdkError::DispatchFailure { is_io, is_timeout } => *is_io || *is_timeout,
            SdkError::ResponseError { status } => status.is_known_transient(),
            SdkError::ServiceError { err } => err.is_known_transient(),
            SdkError::Other => false,
        }
    }
}

/// What is wrong with a response of `converse`.
#[derive(Debug, Clone, Copy, PartialEq, Eq, Structural)]
pub enum ConverseFault {
    /// The model stopped for another reason than to use the tool.
    UnexpectedStopReason,
    /// The response holds no output.
    NoOutput,
    /// The output is no message.
    NoMessage,
    /// The message holds `found` content blocks and not one.
    BlockCount { found: usize },
}

/// What the driver reads of a response of `converse`.
#[derive(Debug, Clone, Copy, PartialEq, Eq, Structural)]
pub struct ConverseShape {
    /// Whether the model stopped to use the tool that reports the result.
    pub stopped_for_tool_use: bool,
    /// Whether the response holds an output.
    pub has_output: bool,
    /// Whether the output is a message.
    pub is_message: bool,
    /// The number of content blocks of the message.
    pub block_count: usize,
}

/// The first fault of a response, looking at the stop reason, the output, the
/// message and its blocks in turn.
pub open spec fn fault_of(shape: ConverseShape) -> Option<ConverseFault> {
    if !shape.stopped_for_tool_use {
        Some(ConverseFault::UnexpectedStopReason)
    } else if !shape.has_output {
        Some(ConverseFault::NoOutput)
    } else if !shape.is_message {
        Some(ConverseFault::NoMessage)
    } else if shape.block_count != 1 {
        Some(ConverseFault::BlockCount { found: shape.block_count })
    } else {
        None
    }
}

impl ConverseFault {
    /// The sentence that `message` returns.
    pub open spec fn message_spec(&self) -> Seq<char> {
        match self {
            ConverseFault::UnexpectedStopReason => "Unexpected stop reason"@,
            ConverseFault::NoOutput => "Bedrock response did not contain any output"@,
            ConverseFault::NoMessage => "Bedrock response did not contain a message"@,
            ConverseFault::BlockCount { found } => "Bedrock response contained "@
                + crate::text::decimal_digits(*found as nat) + " content blocks, expected 1"@,
        }
    }

    /// A sentence that describes the fault.
    pub fn message(&self) -> (s: String)
        ensures
            s@ == self.message_spec(),
    {
        match self {
            ConverseFault::UnexpectedStopReason => String::from_str("Unexpected stop reason"),
            ConverseFault::NoOutput => String::from_str(
                "Bedrock response did not contain any output",
            ),
            ConverseFault::NoMessage => String::from_str(
                "Bedrock response did not contain a message",
            ),
            ConverseFault::BlockCount { found } => {
                let mut s = String::from_str("Bedrock response contained ");
                crate::text::push_decimal(&mut s, *found as u64);
                s.append(" content blocks, expected 1");
                s
            },
        }
    }
}

/// The first fault of a response, looking at the stop reason, the output, the
/// message and its blocks in turn. Every fault is transient: the model may do
/// better when asked again.
pub fn converse_fault(shape: &ConverseShape) -> (fault: Option<ConverseFault>)
    ensures
        fault == fault_of(*shape),
{
    if !shape.stopped_for_tool_use {
        Some(ConverseFault::UnexpectedStopReason)
    } else if !shape.has_output {
        Some(ConverseFault::NoOutput)
    } else if !shape.is_message {
        Some(ConverseFault::NoMessage)
    } else if shape.block_count != 1 {
        Some(ConverseFault::BlockCount { found: shape.block_count })
    } else {
        None
    }
}

} // verus!

verus! {

/// The sampling options of a request.
pub struct InferenceOptions {
    /// An upper limit on the number of tokens to generate.
    pub max_tokens: Option<u32>,
    /// The temperature to use for sampling, as a JSON number.
    pub temperature: Option<Json>,
    /// The top-p sampling value to use, as a JSON number.
    pub top_p: Option<Json>,
}

/// Why a prompt cannot be sent.
#[derive(Debug, Clone, Copy, PartialEq, Eq, Structural)]
pub enum ConverseRequestError {
    /// The messages of the prompt are not in order.
    Prompt { error: PromptError },
    /// An image of the message at `index` cannot be sent: it is no `data:` URL
    /// with Base64 data, or its type is none of PNG, JPEG, GIF and WebP.
    UnusableImage { index: usize },
}

/// The format that an image of a MIME type is declared with, where the
/// service takes such images.
pub open spec fn image_format(mime_type: Seq<char>) -> Option<Seq<char>> {
    if mime_type == "image/png"@ {
        Some("png"@)
    } else if mime_type == "image/jpeg"@ {
        Some("jpeg"@)
    } else if mime_type == "image/gif"@ {
        Some("gif"@)
    } else if mime_type == "image/webp"@ {
        Some("webp"@)
    } else {
        None
    }
}

/// The format to declare for an image of a MIME type.
pub fn image_format_of(mime_type: &str) -> (r: Option<&'static str>)
    ensures
        match r {
            Some(format) => image_format(mime_type@) == Some(format@),
            None => image_format(mime_type@).is_none(),
        },
{
    if str_eq(mime_type, "image/png") {
        Some("png")
    } else if str_eq(mime_type, "image/jpeg") {
        Some("jpeg")
    } else if str_eq(mime_type, "image/gif") {
        Some("gif")
    } else if str_eq(mime_type, "image/webp") {
        Some("webp")
    } else {
        None
    }
}

/// A text as a content block.
pub open spec fn text_block(text: Seq<char>) -> JsonView {
    JsonView::Object(seq![("text"@, JsonView::Text(text))])
}

/// An image as a content block: its declared format and its bytes, which
/// JSON carries as Base64.
pub open spec fn image_block(format: Seq<char>, data: Seq<char>) -> JsonView {
    JsonView::Object(
        seq![
            (
                "image"@,
                JsonView::Object(
                    seq![
                        ("format"@, JsonView::Text(format)),
                        ("source"@, JsonView::Object(seq![("bytes"@, JsonView::Text(data))])),
                    ],
                ),
            ),
        ],
    )
}

/// The name under which the use of the tool by the message at `index` goes.
pub open spec fn tool_use_id(index: nat) -> Seq<char> {
    "result_"@ + crate::text::decimal_digits(index)
}

/// The block in which the model uses the tool to report `input`.
pub open spec fn tool_use_block(id: Seq<char>, input: JsonView) -> JsonView {
    JsonView::Object(
        seq![
            (
                "toolUse"@,
                JsonView::Object(
                    seq![
                        ("toolUseId"@, JsonView::Text(id)),
                        ("name"@, JsonView::Text("report_result"@)),
                        ("input"@, input),
                    ],
                ),
            ),
        ],
    )
}

/// The block that acknowledges a use of the tool.
pub open spec fn tool_result_block(id: Seq<char>) -> JsonView {
    JsonView::Object(
        seq![
            (
                "toolResult"@,
                JsonView::Object(
                    seq![
                        ("toolUseId"@, JsonView::Text(id)),
                        ("content"@, JsonView::Array(seq![text_block("OK"@)])),
                        ("status"@, JsonView::Text("success"@)),
                    ],
                ),
            ),
        ],
    )
}

/// A message: the blocks that one side says.
pub open spec fn role_message(role: Seq<char>, blocks: Seq<JsonView>) -> JsonView {
    JsonView::Object(seq![("role"@, JsonView::Text(role)), ("content"@, JsonView::Array(blocks))])
}

/// Whether an image can be sent: it is a `data:` URL with Base64 data of a
/// type that the service takes.
pub open spec fn image_usable(url: Seq<char>) -> bool {
    crate::data_url::data_url_image(url) matches Some(image) && image_format(image.0).is_some()
}

/// The block of an image that can be sent.
pub open spec fn usable_image_block(url: Seq<char>) -> JsonView {
    let parsed = crate::data_url::parse_data_url_spec(url)->Some_0;
    image_block(image_format(parsed.0)->Some_0, parsed.1)
}

/// Whether the message at `index` holds an image that cannot be sent.
pub open spec fn has_unusable_image(message: Message) -> bool {
    match message {
        Message::User { text, images } => exists|i: int|
            0 <= i < images@.len() && !image_usable((#[trigger] images@[i])@),
        Message::Assistant { .. } => false,
    }
}

/// The acknowledgement that leads the message at `index`: where the message
/// before it is an answer of the model, given as a use of the tool, the result
/// of that use.
pub open spec fn acknowledgement(messages: Seq<Message>, index: int) -> Seq<JsonView> {
    if 0 < index <= messages.len() && messages[index - 1] is Assistant {
        seq![tool_result_block(tool_use_id((index - 1) as nat))]
    } else {
        Seq::empty()
    }
}

/// The message at `index` as a message of a request. A user message holds
/// the acknowledgement of the answer before it, its text, and its images. An
/// assistant message is a use of the tool that reports its value.
pub open spec fn message_json(messages: Seq<Message>, index: int) -> JsonView {
    match messages[index] {
        Message::User { text, images } => role_message(
            "user"@,
            acknowledgement(messages, index) + (match text {
                Some(t) => seq![text_block(t@)],
                None => Seq::empty(),
            }) + Seq::new(images@.len(), |i: int| usable_image_block(images@[i]@)),
        ),
        Message::Assistant { json } => role_message(
            "assistant"@,
            seq![tool_use_block(tool_use_id(index as nat), json@)],
        ),
    }
}

/// The index of the first message at or after `from` with an image that cannot
/// be sent, or the number of messages where there is none.
pub open spec fn first_unusable(messages: Seq<Message>, from: int) -> int
    decreases messages.len() - from,
{
    if from < 0 || from >= messages.len() {
        messages.len() as int
    } else if has_unusable_image(messages[from]) {
        from
    } else {
        first_unusable(messages, from + 1)
    }
}

/// The sampling options that are set, in order.
pub open spec fn inference_members(options: InferenceOptions) -> Seq<(Seq<char>, JsonView)> {
    (match options.max_tokens {
        Some(n) => seq![("maxTokens"@, JsonView::Number(JsonNumberView::PosInt(n as u64)))],
        None => Seq::empty(),
    }) + (match options.temperature {
        Some(t) => seq![("temperature"@, t@)],
        None => Seq::empty(),
    }) + (match options.top_p {
        Some(p) => seq![("topP"@, p@)],
        None => Seq::empty(),
    })
}

/// The tools of a request: the single tool `report_result`, whose input is
/// described by the schema, and the demand that the model use it.
pub open spec fn tool_config(schema: JsonView) -> JsonView {
    JsonView::Object(
        seq![
            (
                "tools"@,
                JsonView::Array(
                    seq![
                        JsonView::Object(
                            seq![
                                (
                                    "toolSpec"@,
                                    JsonView::Object(
                                        seq![
                                            ("name"@, JsonView::Text("report_result"@)),
                                            (
                                                "inputSchema"@,
                                                JsonView::Object(seq![("json"@, schema)]),
                                            ),
                                        ],
                                    ),
                                ),
                            ],
                        ),
                    ],
                ),
            ),
            (
                "toolChoice"@,
                JsonView::Object(
                    seq![
                        (
                            "tool"@,
                            JsonView::Object(seq![("name"@, JsonView::Text("report_result"@))]),
                        ),
                    ],
                ),
            ),
        ],
    )
}

/// The request: the model, the developer message as the system prompt, the
/// messages, the sampling options and the tools.
pub open spec fn converse_request(
    model: Seq<char>,
    prompt: ChatPrompt<Rendered>,
    schema: JsonView,
    options: InferenceOptions,
) -> JsonView {
    JsonView::Object(
        seq![
            ("modelId"@, JsonView::Text(model)),
            (
                "system"@,
                JsonView::Array(
                    match prompt.developer {
                        Some(d) => seq![text_block(d@)],
                        None => Seq::empty(),
                    },
                ),
            ),
            (
                "messages"@,
                JsonView::Array(
                    Seq::new(prompt.messages@.len(), |i: int| message_json(prompt.messages@, i)),
                ),
            ),
            ("inferenceConfig"@, JsonView::Object(inference_members(options))),
            ("toolConfig"@, tool_config(schema)),
        ],
    )
}

fn text_block_json(text: &str) -> (json: Json)
    ensures
        json@ == text_block(text@),
{
    object_of_one("text", json_text(text))
}

fn image_block_json(format: &str, data: &str) -> (json: Json)
    ensures
        json@ == image_block(format@, data@),
{
    object_of_one(
        "image",
        object_of_two(
            "format",
            json_text(format),
            "source",
            object_of_one("bytes", json_text(data)),
        ),
    )
}

fn tool_use_id_text(index: usize) -> (id: String)
    ensures
        id@ == tool_use_id(index as nat),
{
    let mut id = String::from_str("result_");
    crate::text::push_decimal(&mut id, index as u64);
    id
}

fn tool_use_block_json(index: usize, input: Json) -> (json: Json)
    ensures
        json@ == tool_use_block(tool_use_id(index as nat), input@),
{
    let id = tool_use_id_text(index);
    object_of_one(
        "toolUse",
        object_of_three(
            "toolUseId",
            json_text(id.as_str()),
            "name",
            json_text("report_result"),
            "input",
            input,
        ),
    )
}

fn tool_result_block_json(index: usize) -> (json: Json)
    ensures
        json@ == tool_result_block(tool_use_id(index as nat)),
{
    let id = tool_use_id_text(index);
    object_of_one(
        "toolResult",
        object_of_three(
            "toolUseId",
            json_text(id.as_str()),
            "content",
            array_of_one(text_block_json("OK")),
            "status",
            json_text("success"),
        ),
    )
}

fn tool_config_json(schema: Json) -> (json: Json)
    ensures
        json@ == tool_config(schema@),
{
    object_of_two(
        "tools",
        array_of_one(
            object_of_one(
                "toolSpec",
                object_of_two(
                    "name",
                    json_text("report_result"),
                    "inputSchema",
                    object_of_one("json", schema),
                ),
            ),
        ),
        "toolChoice",
        object_of_one("tool", object_of_one("name", json_text("report_result"))),
    )
}

fn inference_json(options: InferenceOptions) -> (json: Json)
    ensures
        json@ == JsonView::Object(inference_members(options)),
{
    let ghost given = options;
    let mut members: Vec<(String, Json)> = Vec::new();
    match options.max_tokens {
        Some(n) => {
            members.push(member("maxTokens", Json::Number(JsonNumber::PosInt(n as u64))));
        },
        None => {},
    }
    match options.temperature {
        Some(t) => {
            members.push(member("temperature", t));
        },
        None => {},
    }
    match options.top_p {
        Some(p) => {
            members.push(member("topP", p));
        },
        None => {},
    }
    proof {
        crate::json::lemma_members_view(members@);
        assert(crate::json::members_view(members@) =~= inference_members(given));
    }
    Json::Object(members)
}

/// The message at `index` of a prompt as a message of a request, or `None`
/// where it holds an image that cannot be sent.
pub fn message_to_json(messages: &Vec<Message>, index: usize) -> (r: Option<Json>)
    requires
        index < messages@.len(),
    ensures
        match r {
            Some(json) => !has_unusable_image(messages@[index as int]) && json@ == message_json(
                messages@,
                index as int,
            ),
            None => has_unusable_image(messages@[index as int]),
        },
{
    match &messages[index] {
        Message::User { text, images } => {
            let mut blocks: Vec<Json> = Vec::new();
            if index > 0 {
                match &messages[index - 1] {
                    Message::Assistant { .. } => {
                        blocks.push(tool_result_block_json(index - 1));
                    },
                    Message::User { .. } => {},
                }
            }
            match text {
                Some(t) => {
                    blocks.push(text_block_json(t.as_str()));
                },
                None => {},
            }
            let ghost lead = acknowledgement(messages@, index as int) + (match text {
                Some(t) => seq![text_block(t@)],
                None => Seq::empty(),
            });
            assert(crate::json::items_view(blocks@) =~= lead) by {
                crate::json::lemma_items_view(blocks@);
            }
            let mut i: usize = 0;
            while i < images.len()
                invariant
                    i <= images@.len(),
                    index < messages@.len(),
                    messages@[index as int] == (Message::User { text: *text, images: *images }),
                    blocks@.len() == lead.len() + i,
                    forall|k: int|
                        0 <= k < lead.len() ==> crate::json::json_view(#[trigger] blocks@[k])
                            == lead[k],
                    forall|k: int| 0 <= k < i ==> image_usable((#[trigger] images@[k])@),
                    forall|k: int|
                        0 <= k < i ==> crate::json::json_view(#[trigger] blocks@[lead.len() + k])
                            == usable_image_block(images@[k]@),
                decreases images.len() - i,
            {
                let block = match crate::data_url::parse_data_url(images[i].as_str()) {
                    Some((mime_type, data)) => match (
                        image_format_of(mime_type.as_str()),
                        crate::data_url::decode_base64(data.as_str()),
                    ) {
                        (Some(format), Some(_)) => Some(image_block_json(format, data.as_str())),
                        _ => None,
                    },
                    None => None,
                };
                match block {
                    Some(block) => {
                        assert(image_usable(images@[i as int]@));
                        blocks.push(block);
                    },
                    None => {
                        assert(!image_usable(images@[i as int]@));
                        return None;
                    },
                }
                i += 1;
            }
            proof {
                crate::json::lemma_items_view(blocks@);
                let expected = lead + Seq::new(
                    images@.len(),
                    |i: int| usable_image_block(images@[i]@),
                );
                assert(crate::json::items_view(blocks@).len() == expected.len());
                assert forall|k: int| 0 <= k < expected.len() implies crate::json::items_view(
                    blocks@,
                )[k] == expected[k] by {
                    if k >= lead.len() {
                        assert(crate::json::json_view(blocks@[lead.len() + (k - lead.len())])
                            == usable_image_block(images@[k - lead.len()]@));
                    }
                }
                assert(crate::json::items_view(blocks@) =~= expected);
            }
            Some(object_of_two("role", json_text("user"), "content", array_of(blocks)))
        },
        Message::Assistant { json } => Some(
            object_of_two(
                "role",
                json_text("assistant"),
                "content",
                array_of_one(tool_use_block_json(index, json.clone())),
            ),
        ),
    }
}

/// Build the request for a chat completion.
///
/// A prompt whose messages are not in order gives no request, and neither
/// does one with an image that cannot be sent: the error names the first
/// message with such an image.
pub fn build_converse_request(
    model: &str,
    prompt: &ChatPrompt<Rendered>,
    schema: Json,
    options: InferenceOptions,
) -> (r: Result<Json, ConverseRequestError>)
    ensures
        match crate::prompt::validate_spec(prompt.messages@) {
            Err(error) => r == Err::<Json, ConverseRequestError>(
                ConverseRequestError::Prompt { error },
            ),
            Ok(_) => if first_unusable(prompt.messages@, 0) < prompt.messages@.len() {
                r == Err::<Json, ConverseRequestError>(
                    ConverseRequestError::UnusableImage {
                        index: first_unusable(prompt.messages@, 0) as usize,
                    },
                )
            } else {
                r matches Ok(request) && request@ == converse_request(
                    model@,
                    *prompt,
                    schema@,
                    options,
                )
            },
        },
{
    match crate::prompt::validate_messages(&prompt.messages) {
        Err(error) => {
            return Err(ConverseRequestError::Prompt { error });
        },
        Ok(_) => {},
    }
    let mut list: Vec<Json> = Vec::new();
    let mut i: usize = 0;
    while i < prompt.messages.len()
        invariant
            i <= prompt.messages@.len(),
            list@.len() == i,
            crate::prompt::validate_spec(prompt.messages@) is Ok,
            first_unusable(prompt.messages@, 0) == first_unusable(prompt.messages@, i as int),
            forall|k: int|
                0 <= k < i ==> crate::json::json_view(#[trigger] list@[k]) == message_json(
                    prompt.messages@,
                    k,
                ),
        decreases prompt.messages.len() - i,
    {
        match message_to_json(&prompt.messages, i) {
            Some(json) => {
                list.push(json);
            },
            None => {
                return Err(ConverseRequestError::UnusableImage { index: i });
            },
        }
        i += 1;
    }
    let system = match &prompt.developer {
        Some(developer) => array_of_one(text_block_json(developer.as_str())),
        None => Json::Array(Vec::new()),
    };
    proof {
        crate::json::lemma_items_view(list@);
        assert(crate::json::items_view(list@) =~= Seq::new(
            prompt.messages@.len(),
            |i: int| message_json(prompt.messages@, i),
        ));
        if prompt.developer.is_none() {
            assert(crate::json::items_view(Seq::<Json>::empty()) =~= Seq::<JsonView>::empty());
        }
    }
    let mut members: Vec<(String, Json)> = Vec::new();
    members.push(member("modelId", json_text(model)));
    members.push(member("system", system));
    members.push(member("messages", Json::Array(list)));
    members.push(member("inferenceConfig", inference_json(options)));
    members.push(member("toolConfig", tool_config_json(schema)));
    proof {
        crate::json::lemma_members_view(members@);
        assert(crate::json::members_view(members@) =~= converse_request(
            model@,
            *prompt,
            schema@,
            options,
        )->Object_0);
    }
    Ok(Json::Object(members))
}

} // verus!

verus! {

/// The blocks of the message of a response; none where it holds no message
/// or the message no list of blocks.
pub open spec fn response_blocks(response: Json) -> Seq<Json> {
    match response.member("output"@) {
        Some(output) => match output.member("message"@) {
            Some(message) => match message.member("content"@) {
                Some(Json::Array(blocks)) => blocks@,
                _ => Seq::empty(),
            },
            None => Seq::empty(),
        },
        None => Seq::empty(),
    }
}

/// What the driver reads of a response.
pub open spec fn response_shape(response: Json) -> ConverseShape {
    ConverseShape {
        stopped_for_tool_use: response.member("stopReason"@) matches Some(Json::Text(reason))
            && reason@ == "tool_use"@,
        has_output: response.member("output"@).is_some(),
        is_message: response.member("output"@) matches Some(output) && output.member(
            "message"@,
        ).is_some(),
        block_count: response_blocks(response).len() as usize,
    }
}

/// What a block reports: the input of the tool, where the block is a use of
/// the tool.
pub open spec fn reported_input(block: Json) -> Option<Json> {
    match block.member("toolUse"@) {
        Some(tool_use) => tool_use.member("input"@),
        None => None,
    }
}

/// A token count of a response: a count that is missing or no number is
/// taken as zero.
pub open spec fn count_of(value: Option<Json>) -> u64 {
    match value {
        Some(Json::Number(JsonNumber::PosInt(n))) => n,
        _ => 0,
    }
}

/// The token usage that a response reports.
pub open spec fn reported_usage(response: Json) -> Option<TokenUsage> {
    match response.member("usage"@) {
        Some(usage) => Some(
            TokenUsage {
                prompt_tokens: count_of(usage.member("inputTokens"@)),
                completion_tokens: count_of(usage.member("outputTokens"@)),
            },
        ),
        None => None,
    }
}

fn read_count(value: Option<&Json>) -> (n: u64)
    ensures
        n == count_of(
            match value {
                Some(v) => Some(*v),
                None => None,
            },
        ),
{
    match value {
        Some(Json::Number(JsonNumber::PosInt(n))) => *n,
        _ => 0,
    }
}

/// Read a response: the value that the model reported through the tool, with
/// the token usage.
///
/// Every fault of the response is a transient error with the fault's
/// sentence, and so is a single block that is no use of the tool.
pub fn read_converse_response(response: &Json) -> (r: LlmRetryResult<ChatCompletionResponse>)
    ensures
        match fault_of(response_shape(*response)) {
            Some(fault) => r matches LlmRetryResult::Transient { error } && error@
                == fault.message_spec(),
            None => match reported_input(response_blocks(*response)[0]) {
                None => r matches LlmRetryResult::Transient { error } && error@
                    == "Bedrock response contained unexpected content block"@,
                Some(input) => r matches LlmRetryResult::Okay { output } && output.response@
                    == input@ && output.token_usage == reported_usage(*response),
            },
        },
{
    let stopped_for_tool_use = match response.get("stopReason") {
        Some(Json::Text(reason)) => str_eq(reason.as_str(), "tool_use"),
        _ => false,
    };
    let output = response.get("output");
    let message = match output {
        Some(output) => output.get("message"),
        None => None,
    };
    let empty: Vec<Json> = Vec::new();
    let blocks: &Vec<Json> = match message {
        Some(message) => match message.get("content") {
            Some(Json::Array(blocks)) => blocks,
            _ => &empty,
        },
        None => &empty,
    };
    assert(blocks@ =~= response_blocks(*response));
    let shape = ConverseShape {
        stopped_for_tool_use,
        has_output: output.is_some(),
        is_message: message.is_some(),
        block_count: blocks.len(),
    };
    match converse_fault(&shape) {
        Some(fault) => {
            return LlmRetryResult::Transient { error: fault.message() };
        },
        None => {},
    }
    let input = match blocks[0].get("toolUse") {
        Some(tool_use) => tool_use.get("input"),
        None => None,
    };
    match input {
        Some(input) => {
            let token_usage = match response.get("usage") {
                Some(usage) => Some(
                    TokenUsage {
                        prompt_tokens: read_count(usage.get("inputTokens")),
                        completion_tokens: read_count(usage.get("outputTokens")),
                    },
                ),
                None => None,
            };
            LlmRetryResult::Okay {
                output: ChatCompletionResponse { response: input.clone(), token_usage },
            }
        },
        None => LlmRetryResult::Transient {
            error: String::from_str("Bedrock response contained unexpected content block"),
        },
    }
}

} // verus!
