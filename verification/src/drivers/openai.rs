//! What the driver for OpenAI-compatible gateways decides.

use vstd::prelude::*;
use crate::json::Json;
use crate::prompt::{ChatPrompt, Message, Rendered};
use crate::retry::LlmRetryResult;
use crate::text::str_eq;

verus! {

/// Whether a request tells the API not to store the response. It does so
/// unless the provider is known to be `anthropic`: a gateway hands the
/// parameter on to Anthropic models, which reject it.
pub open spec fn disables_store(provider: Option<Seq<char>>) -> bool {
    provider != Some("anthropic"@)
}

/// Whether a request tells the API not to store the response.
pub fn should_disable_store(provider: Option<&str>) -> (b: bool)
    ensures
        b == disables_store(
            match provider {
                Some(p) => Some(p@),
                None => None,
            },
        ),
{
    match provider {
        Some(p) => !str_eq(p, "anthropic"),
        None => true,
    }
}

/// Why a response gives no answer.
#[derive(Debug, Clone, Copy, PartialEq, Eq, Structural)]
pub enum ChoiceError {
    /// The response holds no choice.
    NoChoices,
    /// The content filter stopped the answer.
    ContentFilter,
}

impl ChoiceError {
    /// The sentence that `message` returns.
    pub open spec fn message_spec(&self) -> Seq<char> {
        match self {
            ChoiceError::NoChoices => "No choices in OpenAI response"@,
            ChoiceError::ContentFilter =>
                "Content filter triggered (may also be a RECITATION error for Gemini models)"@,
        }
    }

    /// A sentence that describes the error.
    pub fn message(&self) -> (s: String)
        ensures
            s@ == self.message_spec(),
    {
        match self {
            ChoiceError::NoChoices => String::from_str("No choices in OpenAI response"),
            ChoiceError::ContentFilter => String::from_str(
                "Content filter triggered (may also be a RECITATION error for Gemini models)",
            ),
        }
    }
}

} // verus!

verus! {

/// Why a request cannot be made of a prompt.
#[derive(Debug, Clone, Copy, PartialEq, Eq, Structural)]
pub enum RequestError {
    /// The messages of the prompt are not in order.
    Prompt { error: crate::prompt::PromptError },
}

impl RequestError {
    /// A sentence that describes the error.
    pub fn message(&self) -> (s: String)
        ensures
            match self {
                RequestError::Prompt { error } => s@ == error.message_spec(),
            },
    {
        match self {
            RequestError::Prompt { error } => error.message(),
        }
    }
}

/// A text as a part of a user message.
pub open spec fn text_part(text: Seq<char>) -> crate::json::JsonView {
    crate::json::JsonView::Object(
        seq![
            ("type"@, crate::json::JsonView::Text("text"@)),
            ("text"@, crate::json::JsonView::Text(text)),
        ],
    )
}

/// An image as a part of a user message.
pub open spec fn image_part(url: Seq<char>) -> crate::json::JsonView {
    crate::json::JsonView::Object(
        seq![
            ("type"@, crate::json::JsonView::Text("image_url"@)),
            (
                "image_url"@,
                crate::json::JsonView::Object(seq![("url"@, crate::json::JsonView::Text(url))]),
            ),
        ],
    )
}

/// The parts of a user message: the text, where there is one, and then each
/// image.
pub open spec fn message_parts(text: Option<String>, images: Seq<String>) -> Seq<
    crate::json::JsonView,
> {
    (match text {
        Some(t) => seq![text_part(t@)],
        None => Seq::empty(),
    }) + Seq::new(images.len(), |i: int| image_part(images[i]@))
}

/// A message with a role and a content.
pub open spec fn role_message(role: Seq<char>, content: crate::json::JsonView)
    -> crate::json::JsonView {
    crate::json::JsonView::Object(
        seq![("role"@, crate::json::JsonView::Text(role)), ("content"@, content)],
    )
}

/// A message of a prompt as the API takes it. A user message that is only a
/// text is sent as that text, and one with images in parts. An assistant
/// message is sent as the JSON text of its value.
pub open spec fn message_json(message: Message) -> crate::json::JsonView {
    match message {
        Message::User { text, images } => if images@.len() == 0 {
            role_message(
                "user"@,
                crate::json::JsonView::Text(
                    match text {
                        Some(t) => t@,
                        None => Seq::empty(),
                    },
                ),
            )
        } else {
            role_message("user"@, crate::json::JsonView::Array(message_parts(text, images@)))
        },
        Message::Assistant { json } => role_message(
            "assistant"@,
            crate::json::JsonView::Text(crate::json::compact_json(json@)),
        ),
    }
}

/// The messages of a request: the developer message as a system message,
/// where there is one, and then the messages of the prompt.
pub open spec fn request_messages(developer: Option<String>, messages: Seq<Message>) -> Seq<
    crate::json::JsonView,
> {
    (match developer {
        Some(d) => seq![role_message("system"@, crate::json::JsonView::Text(d@))],
        None => Seq::empty(),
    }) + Seq::new(messages.len(), |i: int| message_json(messages[i]))
}

/// The response format of a request: a JSON Schema with a name, to be kept
/// to strictly.
pub open spec fn response_format(name: Seq<char>, schema: crate::json::JsonView)
    -> crate::json::JsonView {
    crate::json::JsonView::Object(
        seq![
            ("type"@, crate::json::JsonView::Text("json_schema"@)),
            (
                "json_schema"@,
                crate::json::JsonView::Object(
                    seq![
                        ("name"@, crate::json::JsonView::Text(name)),
                        ("schema"@, schema),
                        ("strict"@, crate::json::JsonView::Bool(true)),
                    ],
                ),
            ),
        ],
    )
}

/// What a request holds besides the model, the messages and the format.
pub struct RequestOptions {
    /// The provider of the model, where it is known.
    pub provider: Option<String>,
    /// An upper limit on the number of completion tokens to generate.
    pub max_completion_tokens: Option<u32>,
    /// The temperature to use for sampling, as a JSON number.
    pub temperature: Option<Json>,
    /// The top-p sampling value to use, as a JSON number.
    pub top_p: Option<Json>,
}

/// The optional members of a request, in order: `store`, set to false unless
/// the provider is `anthropic`, and each option that is set.
pub open spec fn option_members(options: RequestOptions) -> Seq<(Seq<char>, crate::json::JsonView)> {
    (if disables_store(
        match options.provider {
            Some(p) => Some(p@),
            None => None,
        },
    ) {
        seq![("store"@, crate::json::JsonView::Bool(false))]
    } else {
        Seq::empty()
    }) + (match options.max_completion_tokens {
        Some(n) => seq![
            (
                "max_completion_tokens"@,
                crate::json::JsonView::Number(crate::json::JsonNumberView::PosInt(n as u64)),
            ),
        ],
        None => Seq::empty(),
    }) + (match options.temperature {
        Some(t) => seq![("temperature"@, t@)],
        None => Seq::empty(),
    }) + (match options.top_p {
        Some(p) => seq![("top_p"@, p@)],
        None => Seq::empty(),
    })
}

/// The request for a chat completion: the model, the messages, no streaming,
/// the response format with the schema under its title, and the options.
pub open spec fn chat_request(
    model: Seq<char>,
    prompt: ChatPrompt<Rendered>,
    schema: Json,
    options: RequestOptions,
) -> crate::json::JsonView {
    crate::json::JsonView::Object(
        seq![
            ("model"@, crate::json::JsonView::Text(model)),
            (
                "messages"@,
                crate::json::JsonView::Array(request_messages(prompt.developer, prompt.messages@)),
            ),
            ("stream"@, crate::json::JsonView::Bool(false)),
            (
                "response_format"@,
                response_format(crate::schema::schema_title(schema), schema@),
            ),
        ] + option_members(options),
    )
}

fn role_message_json(role: &str, content: Json) -> (json: Json)
    ensures
        json@ == role_message(role@, content@),
{
    let mut members: Vec<(String, Json)> = Vec::new();
    members.push(crate::json::member("role", crate::json::json_text(role)));
    members.push(crate::json::member("content", content));
    proof {
        crate::json::lemma_members_view(members@);
        assert(crate::json::members_view(members@) =~= role_message(role@, content@)->Object_0);
    }
    Json::Object(members)
}

fn text_part_json(text: &str) -> (json: Json)
    ensures
        json@ == text_part(text@),
{
    let mut members: Vec<(String, Json)> = Vec::new();
    members.push(crate::json::member("type", crate::json::json_text("text")));
    members.push(crate::json::member("text", crate::json::json_text(text)));
    proof {
        crate::json::lemma_members_view(members@);
        assert(crate::json::members_view(members@) =~= text_part(text@)->Object_0);
    }
    Json::Object(members)
}

fn image_part_json(url: &str) -> (json: Json)
    ensures
        json@ == image_part(url@),
{
    let mut inner: Vec<(String, Json)> = Vec::new();
    inner.push(crate::json::member("url", crate::json::json_text(url)));
    proof {
        crate::json::lemma_members_view(inner@);
        assert(crate::json::members_view(inner@) =~= seq![
            ("url"@, crate::json::JsonView::Text(url@)),
        ]);
    }
    let mut members: Vec<(String, Json)> = Vec::new();
    members.push(crate::json::member("type", crate::json::json_text("image_url")));
    members.push(crate::json::member("image_url", Json::Object(inner)));
    proof {
        crate::json::lemma_members_view(members@);
        assert(crate::json::members_view(members@) =~= image_part(url@)->Object_0);
    }
    Json::Object(members)
}

/// A message of a prompt as the API takes it.
pub fn message_to_json(message: &Message) -> (json: Json)
    ensures
        json@ == message_json(*message),
{
    match message {
        Message::User { text, images } => {
            if images.len() == 0 {
                let content = match text {
                    Some(t) => crate::json::json_text(t.as_str()),
                    None => crate::json::json_text(""),
                };
                proof {
                    reveal_strlit("");
                    assert(""@ =~= Seq::<char>::empty());
                }
                role_message_json("user", content)
            } else {
                let mut parts: Vec<Json> = Vec::new();
                match text {
                    Some(t) => {
                        parts.push(text_part_json(t.as_str()));
                    },
                    None => {},
                }
                let ghost head = parts@.len();
                let mut i: usize = 0;
                while i < images.len()
                    invariant
                        i <= images@.len(),
                        head == (if text.is_some() { 1int } else { 0int }),
                        parts@.len() == head + i,
                        text matches Some(t) ==> crate::json::json_view(parts@[0]) == text_part(t@),
                        forall|k: int|
                            0 <= k < i ==> crate::json::json_view(#[trigger] parts@[head + k])
                                == image_part(images@[k]@),
                    decreases images.len() - i,
                {
                    parts.push(image_part_json(images[i].as_str()));
                    i += 1;
                }
                proof {
                    crate::json::lemma_items_view(parts@);
                    let expected = message_parts(*text, images@);
                    assert(crate::json::items_view(parts@).len() == expected.len());
                    assert forall|k: int| 0 <= k < expected.len() implies crate::json::items_view(
                        parts@,
                    )[k] == expected[k] by {
                        if k >= head {
                            assert(crate::json::json_view(parts@[head + (k - head)]) == image_part(
                                images@[k - head]@,
                            ));
                        }
                    }
                    assert(crate::json::items_view(parts@) =~= expected);
                }
                role_message_json("user", Json::Array(parts))
            }
        },
        Message::Assistant { json } => {
            let text = json.to_json_string();
            role_message_json("assistant", Json::Text(text))
        },
    }
}

/// Build the request for a chat completion.
///
/// A prompt whose messages are not in order gives no request.
pub fn build_chat_request(
    model: &str,
    prompt: &ChatPrompt<Rendered>,
    schema: &Json,
    options: RequestOptions,
) -> (r: Result<Json, RequestError>)
    ensures
        match crate::prompt::validate_spec(prompt.messages@) {
            Err(error) => r == Err::<Json, RequestError>(RequestError::Prompt { error }),
            Ok(_) => r matches Ok(request) && request@ == chat_request(
                model@,
                *prompt,
                *schema,
                options,
            ),
        },
{
    match crate::prompt::validate_messages(&prompt.messages) {
        Err(error) => {
            return Err(RequestError::Prompt { error });
        },
        Ok(_) => {},
    }
    let mut messages: Vec<Json> = Vec::new();
    match &prompt.developer {
        Some(developer) => {
            messages.push(
                role_message_json("system", crate::json::json_text(developer.as_str())),
            );
        },
        None => {},
    }
    let ghost head = messages@.len();
    let mut i: usize = 0;
    while i < prompt.messages.len()
        invariant
            i <= prompt.messages@.len(),
            head == (if prompt.developer.is_some() { 1int } else { 0int }),
            messages@.len() == head + i,
            prompt.developer matches Some(d) ==> crate::json::json_view(messages@[0])
                == role_message("system"@, crate::json::JsonView::Text(d@)),
            forall|k: int|
                0 <= k < i ==> crate::json::json_view(#[trigger] messages@[head + k])
                    == message_json(prompt.messages@[k]),
        decreases prompt.messages.len() - i,
    {
        messages.push(message_to_json(&prompt.messages[i]));
        i += 1;
    }
    proof {
        crate::json::lemma_items_view(messages@);
        let expected = request_messages(prompt.developer, prompt.messages@);
        assert(crate::json::items_view(messages@).len() == expected.len());
        assert forall|k: int| 0 <= k < expected.len() implies crate::json::items_view(messages@)[k]
            == expected[k] by {
            if k >= head {
                assert(crate::json::json_view(messages@[head + (k - head)]) == message_json(
                    prompt.messages@[k - head],
                ));
            }
        }
        assert(crate::json::items_view(messages@) =~= expected);
    }
    let mut format_inner: Vec<(String, Json)> = Vec::new();
    format_inner.push(
        crate::json::member("name", Json::Text(crate::schema::get_schema_title(schema))),
    );
    format_inner.push(crate::json::member("schema", schema.clone()));
    format_inner.push(crate::json::member("strict", Json::Bool(true)));
    let mut format: Vec<(String, Json)> = Vec::new();
    format.push(crate::json::member("type", crate::json::json_text("json_schema")));
    proof {
        crate::json::lemma_members_view(format_inner@);
        assert(crate::json::members_view(format_inner@) =~= seq![
            ("name"@, crate::json::JsonView::Text(crate::schema::schema_title(*schema))),
            ("schema"@, schema@),
            ("strict"@, crate::json::JsonView::Bool(true)),
        ]);
    }
    format.push(crate::json::member("json_schema", Json::Object(format_inner)));
    proof {
        crate::json::lemma_members_view(format@);
        assert(crate::json::members_view(format@) =~= response_format(
            crate::schema::schema_title(*schema),
            schema@,
        )->Object_0);
    }
    let mut request: Vec<(String, Json)> = Vec::new();
    request.push(crate::json::member("model", crate::json::json_text(model)));
    request.push(crate::json::member("messages", Json::Array(messages)));
    request.push(crate::json::member("stream", Json::Bool(false)));
    request.push(crate::json::member("response_format", Json::Object(format)));
    let RequestOptions { provider, max_completion_tokens, temperature, top_p } = options;
    let disable = should_disable_store(
        match &provider {
            Some(p) => Some(p.as_str()),
            None => None,
        },
    );
    if disable {
        request.push(crate::json::member("store", Json::Bool(false)));
    }
    match max_completion_tokens {
        Some(n) => {
            request.push(
                crate::json::member(
                    "max_completion_tokens",
                    Json::Number(crate::json::JsonNumber::PosInt(n as u64)),
                ),
            );
        },
        None => {},
    }
    match temperature {
        Some(t) => {
            request.push(crate::json::member("temperature", t));
        },
        None => {},
    }
    match top_p {
        Some(p) => {
            request.push(crate::json::member("top_p", p));
        },
        None => {},
    }
    proof {
        crate::json::lemma_members_view(request@);
        assert(crate::json::members_view(request@) =~= chat_request(
            model@,
            *prompt,
            *schema,
            options,
        )->Object_0);
    }
    Ok(Json::Object(request))
}

} // verus!

verus! {

/// The token usage that a response reports: its `usage` with the two counts
/// as whole numbers.
pub open spec fn reported_usage(result: Json) -> Option<crate::drivers::TokenUsage> {
    match result.member("usage"@) {
        Some(usage) => match (
            usage.member("prompt_tokens"@),
            usage.member("completion_tokens"@),
        ) {
            (
                Some(Json::Number(crate::json::JsonNumber::PosInt(prompt_tokens))),
                Some(Json::Number(crate::json::JsonNumber::PosInt(completion_tokens))),
            ) => Some(crate::drivers::TokenUsage { prompt_tokens, completion_tokens }),
            _ => None,
        },
        None => None,
    }
}

/// The first choice of a response.
pub open spec fn first_choice(result: Json) -> Option<Json> {
    match result.member("choices"@) {
        Some(Json::Array(choices)) => if choices@.len() > 0 {
            Some(choices@[0])
        } else {
            None
        },
        _ => None,
    }
}

/// Whether the content filter stopped a choice.
pub open spec fn content_filtered(choice: Json) -> bool {
    choice.member("finish_reason"@) matches Some(Json::Text(reason)) && reason@
        == "content_filter"@
}

/// The content of the message of a choice; empty where there is none.
pub open spec fn choice_content(choice: Json) -> Seq<char> {
    match choice.member("message"@) {
        Some(message) => match message.member("content"@) {
            Some(Json::Text(content)) => content@,
            _ => Seq::empty(),
        },
        None => Seq::empty(),
    }
}

/// Read the response to a request for a chat completion.
///
/// A response without a choice and a choice that the content filter stopped
/// are fatal. Otherwise the content of the first choice is read as JSON:
/// where it is JSON, it is the response, with the token usage that was
/// reported; where it is not, the failure is transient, since the model may
/// do better when asked again.
pub fn read_chat_completion(chat_result: &Json) -> (r: LlmRetryResult<
    crate::drivers::ChatCompletionResponse,
>)
    ensures
        match first_choice(*chat_result) {
            None => r matches LlmRetryResult::Fatal { error } && error@
                == ChoiceError::NoChoices.message_spec(),
            Some(choice) => if content_filtered(choice) {
                r matches LlmRetryResult::Fatal { error } && error@
                    == ChoiceError::ContentFilter.message_spec()
            } else {
                match crate::json::json_document(choice_content(choice)) {
                    None => r is Transient,
                    Some(document) => r matches LlmRetryResult::Okay { output } && output.response@
                        == document && output.token_usage == reported_usage(*chat_result),
                }
            },
        },
{
    let token_usage = match chat_result.get("usage") {
        Some(usage) => match (usage.get("prompt_tokens"), usage.get("completion_tokens")) {
            (
                Some(Json::Number(crate::json::JsonNumber::PosInt(prompt_tokens))),
                Some(Json::Number(crate::json::JsonNumber::PosInt(completion_tokens))),
            ) => Some(
                crate::drivers::TokenUsage {
                    prompt_tokens: *prompt_tokens,
                    completion_tokens: *completion_tokens,
                },
            ),
            _ => None,
        },
        None => None,
    };
    let choice = match chat_result.get("choices") {
        Some(Json::Array(choices)) => if choices.len() > 0 {
            &choices[0]
        } else {
            return LlmRetryResult::Fatal { error: ChoiceError::NoChoices.message() };
        },
        _ => {
            return LlmRetryResult::Fatal { error: ChoiceError::NoChoices.message() };
        },
    };
    let filtered = match choice.get("finish_reason") {
        Some(Json::Text(reason)) => str_eq(reason.as_str(), "content_filter"),
        _ => false,
    };
    if filtered {
        return LlmRetryResult::Fatal { error: ChoiceError::ContentFilter.message() };
    }
    let empty = String::new();
    let content: &String = match choice.get("message") {
        Some(message) => match message.get("content") {
            Some(Json::Text(content)) => content,
            _ => &empty,
        },
        None => &empty,
    };
    match crate::json::json_from_str(content.as_str()) {
        Ok(response) => LlmRetryResult::Okay {
            output: crate::drivers::ChatCompletionResponse { response, token_usage },
        },
        Err(reason) => {
            let mut error = String::from_str("Error parsing OpenAI response content: \"");
            error.append(content.as_str());
            error.append("\": ");
            error.append(reason.as_str());
            LlmRetryResult::Transient { error }
        },
    }
}

} // verus!
