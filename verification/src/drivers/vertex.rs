//! What the driver for Google Vertex AI decides.

use vstd::prelude::*;
use crate::drivers::{token_count_from_i32, ChatCompletionResponse, TokenUsage};
use crate::json::{Json, JsonView};
use crate::prompt::{ChatPrompt, Message, Rendered};
use crate::retry::{IsKnownTransient, LlmRetryResult};

verus! {

/// The status codes of an RPC that the driver tells apart.
#[derive(Debug, Clone, Copy, PartialEq, Eq, Structural)]
pub enum Code {
    /// The deadline passed before the call was done.
    DeadlineExceeded,
    /// A quota is used up.
    ResourceExhausted,
    /// An internal error of the service.
    Internal,
    /// The service is unavailable.
    Unavailable,
    /// Any other code.
    Other,
}

impl IsKnownTransient for Code {
    open spec fn known_transient(&self) -> bool {
        *self != Code::Other
    }

    fn is_known_transient(&self) -> (b: bool) {
        match self {
            Code::Other => false,
            _ => true,
        }
    }
}

/// A failure of a call to Vertex AI, as far as the driver reads it.
#[derive(Debug, Clone, Copy, PartialEq, Eq, Structural)]
pub struct VertexError {
    /// The status code of the RPC, where the service answered.
    pub status: Option<Code>,
    /// Whether the call timed out.
    pub is_timeout: bool,
    /// Whether the client gave up after its own retries.
    pub is_exhausted: bool,
}

impl IsKnownTransient for VertexError {
    open spec fn known_transient(&self) -> bool {
        (match self.status {
            Some(code) => code.known_transient(),
            None => false,
        }) || self.is_timeout || self.is_exhausted
    }

    fn is_known_transient(&self) -> (b: bool) {
        let by_status = match self.status {
            Some(code) => code.is_known_transient(),
            None => false,
        };
        by_status || self.is_timeout || self.is_exhausted
    }
}

/// The token usage that a response reports: the tokens of the model's
/// thoughts count as completion tokens, and a count below zero as zero.
pub fn vertex_token_usage(prompt: i32, thoughts: i32, candidates: i32) -> (usage: TokenUsage)
    ensures
        usage.prompt_tokens == (if prompt < 0 { 0 } else { prompt as int }),
        usage.completion_tokens == (if thoughts < 0 { 0 } else { thoughts as int }) + (
        if candidates < 0 { 0 } else { candidates as int }),
{
    TokenUsage {
        prompt_tokens: token_count_from_i32(prompt),
        completion_tokens: token_count_from_i32(thoughts) + token_count_from_i32(candidates),
    }
}

} // verus!

verus! {

/// Why a prompt cannot be sent to Vertex AI.
#[derive(Debug, Clone, Copy, PartialEq, Eq, Structural)]
pub enum VertexRequestError {
    /// The text of the user message at `index` is empty or white space.
    EmptyText { index: usize },
    /// An image of the user message at `index` is no `data:` URL with Base64
    /// data: the driver sends images inline.
    NotInlineImage { index: usize },
}

impl VertexRequestError {
    /// The sentence that `message` returns.
    pub open spec fn message_spec(&self) -> Seq<char> {
        match self {
            VertexRequestError::EmptyText { index } => "User message has empty text: message "@
                + crate::text::decimal_digits(*index as nat),
            VertexRequestError::NotInlineImage { index } =>
                "Only data URLs are supported for images in Vertex driver: message "@
                    + crate::text::decimal_digits(*index as nat),
        }
    }

    /// A sentence that describes the error.
    pub fn message(&self) -> (s: String)
        ensures
            s@ == self.message_spec(),
    {
        match self {
            VertexRequestError::EmptyText { index } => {
                let mut s = String::from_str("User message has empty text: message ");
                crate::text::push_decimal(&mut s, *index as u64);
                s
            },
            VertexRequestError::NotInlineImage { index } => {
                let mut s = String::from_str(
                    "Only data URLs are supported for images in Vertex driver: message ",
                );
                crate::text::push_decimal(&mut s, *index as u64);
                s
            },
        }
    }
}

/// A text as a part of a content.
pub open spec fn text_part(text: Seq<char>) -> JsonView {
    JsonView::Object(seq![("text"@, JsonView::Text(text))])
}

/// An image as a part of a content: its MIME type and its Base64 data.
pub open spec fn inline_part(mime_type: Seq<char>, data: Seq<char>) -> JsonView {
    JsonView::Object(
        seq![
            (
                "inlineData"@,
                JsonView::Object(
                    seq![("mimeType"@, JsonView::Text(mime_type)), ("data"@, JsonView::Text(data))],
                ),
            ),
        ],
    )
}

/// A content: the parts that one side says.
pub open spec fn content(role: Seq<char>, parts: Seq<JsonView>) -> JsonView {
    JsonView::Object(seq![("role"@, JsonView::Text(role)), ("parts"@, JsonView::Array(parts))])
}

/// Whether an image can be sent inline: it is a `data:` URL whose data is
/// Base64.
pub open spec fn is_inline_image(url: Seq<char>) -> bool {
    crate::data_url::data_url_image(url).is_some()
}

/// The part of an image that can be sent inline.
pub open spec fn image_part(url: Seq<char>) -> JsonView {
    let parsed = crate::data_url::parse_data_url_spec(url)->Some_0;
    inline_part(parsed.0, parsed.1)
}

/// What stands against sending the message at `index`, if anything: a text
/// that is empty or white space, and then the first image that cannot be sent
/// inline.
pub open spec fn message_fault(message: Message, index: usize) -> Option<VertexRequestError> {
    match message {
        Message::User { text, images } => if text matches Some(t) && crate::text::trim_spec(
            t@,
        ).len() == 0 {
            Some(VertexRequestError::EmptyText { index })
        } else if exists|i: int| 0 <= i < images@.len() && !is_inline_image((#[trigger] images@[i])@) {
            Some(VertexRequestError::NotInlineImage { index })
        } else {
            None
        },
        Message::Assistant { .. } => None,
    }
}

/// A message as a content: a user message with its text, where it has one,
/// and then its images; an assistant message as the JSON text of its value,
/// said by the model.
pub open spec fn message_content(message: Message) -> JsonView {
    match message {
        Message::User { text, images } => content(
            "user"@,
            (match text {
                Some(t) => seq![text_part(t@)],
                None => Seq::empty(),
            }) + Seq::new(images@.len(), |i: int| image_part(images@[i]@)),
        ),
        Message::Assistant { json } => content(
            "model"@,
            seq![text_part(crate::json::compact_json(json@))],
        ),
    }
}

/// The fault of the first faulty message at or after `from`.
pub open spec fn first_fault(messages: Seq<Message>, from: int) -> Option<VertexRequestError>
    decreases messages.len() - from,
{
    if from < 0 || from >= messages.len() {
        None
    } else {
        match message_fault(messages[from], from as usize) {
            Some(e) => Some(e),
            None => first_fault(messages, from + 1),
        }
    }
}

/// The contents of a request: the developer message, said by the model as a
/// preamble, where there is one, and then the messages of the prompt.
pub open spec fn contents(developer: Option<String>, messages: Seq<Message>) -> Seq<JsonView> {
    (match developer {
        Some(d) => seq![content("model"@, seq![text_part(d@)])],
        None => Seq::empty(),
    }) + Seq::new(messages.len(), |i: int| message_content(messages[i]))
}

fn text_part_json(text: &str) -> (json: Json)
    ensures
        json@ == text_part(text@),
{
    let mut members: Vec<(String, Json)> = Vec::new();
    members.push(crate::json::member("text", crate::json::json_text(text)));
    proof {
        crate::json::lemma_members_view(members@);
        assert(crate::json::members_view(members@) =~= text_part(text@)->Object_0);
    }
    Json::Object(members)
}

fn inline_part_json(mime_type: &str, data: &str) -> (json: Json)
    ensures
        json@ == inline_part(mime_type@, data@),
{
    let mut inner: Vec<(String, Json)> = Vec::new();
    inner.push(crate::json::member("mimeType", crate::json::json_text(mime_type)));
    inner.push(crate::json::member("data", crate::json::json_text(data)));
    proof {
        crate::json::lemma_members_view(inner@);
        assert(crate::json::members_view(inner@) =~= seq![
            ("mimeType"@, JsonView::Text(mime_type@)),
            ("data"@, JsonView::Text(data@)),
        ]);
    }
    let mut members: Vec<(String, Json)> = Vec::new();
    members.push(crate::json::member("inlineData", Json::Object(inner)));
    proof {
        crate::json::lemma_members_view(members@);
        assert(crate::json::members_view(members@) =~= inline_part(mime_type@, data@)->Object_0);
    }
    Json::Object(members)
}

fn content_json(role: &str, parts: Vec<Json>) -> (json: Json)
    ensures
        json@ == content(role@, crate::json::items_view(parts@)),
{
    let mut members: Vec<(String, Json)> = Vec::new();
    members.push(crate::json::member("role", crate::json::json_text(role)));
    members.push(crate::json::member("parts", Json::Array(parts)));
    proof {
        crate::json::lemma_members_view(members@);
        assert(crate::json::members_view(members@) =~= content(
            role@,
            crate::json::items_view(parts@),
        )->Object_0);
    }
    Json::Object(members)
}

/// A message of a prompt as a content of a request.
pub fn message_to_content(message: &Message, index: usize) -> (r: Result<Json, VertexRequestError>)
    ensures
        match message_fault(*message, index) {
            Some(e) => r == Err::<Json, VertexRequestError>(e),
            None => r matches Ok(json) && json@ == message_content(*message),
        },
{
    match message {
        Message::User { text, images } => {
            let mut parts: Vec<Json> = Vec::new();
            match text {
                Some(t) => {
                    let trimmed = crate::text::trim(t.as_str());
                    if trimmed.as_str().unicode_len() == 0 {
                        return Err(VertexRequestError::EmptyText { index });
                    }
                    parts.push(text_part_json(t.as_str()));
                },
                None => {},
            }
            let ghost head = parts@.len();
            let mut i: usize = 0;
            while i < images.len()
                invariant
                    i <= images@.len(),
                    *message == (Message::User { text: *text, images: *images }),
                    !(text matches Some(t) && crate::text::trim_spec(t@).len() == 0),
                    head == (if text.is_some() { 1int } else { 0int }),
                    parts@.len() == head + i,
                    text matches Some(t) ==> crate::json::json_view(parts@[0]) == text_part(t@),
                    forall|k: int| 0 <= k < i ==> is_inline_image((#[trigger] images@[k])@),
                    forall|k: int|
                        0 <= k < i ==> crate::json::json_view(#[trigger] parts@[head + k])
                            == image_part(images@[k]@),
                decreases images.len() - i,
            {
                let parsed = crate::data_url::parse_data_url(images[i].as_str());
                match parsed {
                    Some((mime_type, data)) => {
                        if crate::data_url::decode_base64(data.as_str()).is_none() {
                            assert(!is_inline_image(images@[i as int]@));
                            return Err(VertexRequestError::NotInlineImage { index });
                        }
                        parts.push(inline_part_json(mime_type.as_str(), data.as_str()));
                    },
                    None => {
                        assert(!is_inline_image(images@[i as int]@));
                        return Err(VertexRequestError::NotInlineImage { index });
                    },
                }
                i += 1;
            }
            proof {
                crate::json::lemma_items_view(parts@);
                let expected = message_content(*message)->Object_0[1].1->Array_0;
                assert(crate::json::items_view(parts@).len() == expected.len());
                assert forall|k: int| 0 <= k < expected.len() implies crate::json::items_view(
                    parts@,
                )[k] == expected[k] by {
                    if k >= head {
                        assert(crate::json::json_view(parts@[head + (k - head)]) == image_part(
                            images@[k - head]@,
                        ));
                    }
                }
                assert(crate::json::items_view(parts@) =~= expected);
            }
            Ok(content_json("user", parts))
        },
        Message::Assistant { json } => {
            let text = json.to_json_string();
            let mut parts: Vec<Json> = Vec::new();
            parts.push(text_part_json(text.as_str()));
            proof {
                crate::json::lemma_items_view(parts@);
                assert(crate::json::items_view(parts@) =~= seq![
                    text_part(crate::json::compact_json(json@)),
                ]);
            }
            Ok(content_json("model", parts))
        },
    }
}

/// Convert a rendered prompt to the contents of a request.
///
/// The first message that cannot be sent ends the conversion with its fault.
pub fn to_vertex_contents(prompt: &ChatPrompt<Rendered>) -> (r: Result<Vec<Json>, VertexRequestError>)
    ensures
        match first_fault(prompt.messages@, 0) {
            Some(e) => r == Err::<Vec<Json>, VertexRequestError>(e),
            None => r matches Ok(list) && crate::json::items_view(list@) == contents(
                prompt.developer,
                prompt.messages@,
            ),
        },
{
    let mut list: Vec<Json> = Vec::new();
    match &prompt.developer {
        Some(developer) => {
            let mut parts: Vec<Json> = Vec::new();
            parts.push(text_part_json(developer.as_str()));
            proof {
                crate::json::lemma_items_view(parts@);
                assert(crate::json::items_view(parts@) =~= seq![text_part(developer@)]);
            }
            list.push(content_json("model", parts));
        },
        None => {},
    }
    let ghost head = list@.len();
    let mut i: usize = 0;
    while i < prompt.messages.len()
        invariant
            i <= prompt.messages@.len(),
            head == (if prompt.developer.is_some() { 1int } else { 0int }),
            list@.len() == head + i,
            prompt.developer matches Some(d) ==> crate::json::json_view(list@[0]) == content(
                "model"@,
                seq![text_part(d@)],
            ),
            first_fault(prompt.messages@, 0) == first_fault(prompt.messages@, i as int),
            forall|k: int|
                0 <= k < i ==> crate::json::json_view(#[trigger] list@[head + k])
                    == message_content(prompt.messages@[k]),
        decreases prompt.messages.len() - i,
    {
        match message_to_content(&prompt.messages[i], i) {
            Ok(json) => {
                list.push(json);
            },
            Err(e) => {
                return Err(e);
            },
        }
        i += 1;
    }
    proof {
        crate::json::lemma_items_view(list@);
        let expected = contents(prompt.developer, prompt.messages@);
        assert(crate::json::items_view(list@).len() == expected.len());
        assert forall|k: int| 0 <= k < expected.len() implies crate::json::items_view(list@)[k]
            == expected[k] by {
            if k >= head {
                assert(crate::json::json_view(list@[head + (k - head)]) == message_content(
                    prompt.messages@[k - head],
                ));
            }
        }
        assert(crate::json::items_view(list@) =~= expected);
    }
    Ok(list)
}

} // verus!

verus! {

/// What a content of a response holds: who said it, and for each of its
/// parts the text, where the part is a text.
pub struct ResponseContent {
    /// The role of the side that said it.
    pub role: String,
    /// The text of each part; `None` for a part that is no text.
    pub parts: Vec<Option<String>>,
}

/// The token counts that a response reports.
#[derive(Debug, Clone, Copy, PartialEq, Eq, Structural)]
pub struct UsageMetadata {
    /// The tokens of the request.
    pub prompt_token_count: i32,
    /// The tokens of the model's thoughts.
    pub thoughts_token_count: i32,
    /// The tokens of the candidates.
    pub candidates_token_count: i32,
}

/// What the driver reads of a response.
pub struct GenerateResponse {
    /// The content of each candidate, where the candidate has one.
    pub candidates: Vec<Option<ResponseContent>>,
    /// The token counts, where the response reports them.
    pub usage_metadata: Option<UsageMetadata>,
}

/// What is wrong with a response.
#[derive(Debug, Clone, Copy, PartialEq, Eq, Structural)]
pub enum ResponseFault {
    /// The response holds no candidate. Fatal.
    NoCandidates,
    /// The first candidate holds no content. Fatal.
    NoContent,
    /// The content was not said by the model. Transient.
    NotFromModel,
    /// The content holds no text. Transient.
    NoText,
}

impl ResponseFault {
    /// Whether the request is worth sending again after this fault.
    pub open spec fn transient(&self) -> bool {
        *self == ResponseFault::NotFromModel || *self == ResponseFault::NoText
    }

    /// Whether the request is worth sending again after this fault.
    pub fn is_transient(&self) -> (b: bool)
        ensures
            b == self.transient(),
    {
        match self {
            ResponseFault::NoCandidates => false,
            ResponseFault::NoContent => false,
            ResponseFault::NotFromModel => true,
            ResponseFault::NoText => true,
        }
    }

    /// The sentence that `message` returns.
    pub open spec fn message_spec(&self) -> Seq<char> {
        match self {
            ResponseFault::NoCandidates => "Vertex AI response did not contain any candidates"@,
            ResponseFault::NoContent => "Vertex AI response did not contain any content"@,
            ResponseFault::NotFromModel => "Vertex AI response content role is not 'model'"@,
            ResponseFault::NoText => "No text response found in Vertex AI response"@,
        }
    }

    /// A sentence that describes the fault.
    pub fn message(&self) -> (s: String)
        ensures
            s@ == self.message_spec(),
    {
        match self {
            ResponseFault::NoCandidates => String::from_str(
                "Vertex AI response did not contain any candidates",
            ),
            ResponseFault::NoContent => String::from_str(
                "Vertex AI response did not contain any content",
            ),
            ResponseFault::NotFromModel => String::from_str(
                "Vertex AI response content role is not 'model'",
            ),
            ResponseFault::NoText => String::from_str("No text response found in Vertex AI response"),
        }
    }
}

/// The index of the first part at or after `from` that is a text, or the
/// number of parts where there is none.
pub open spec fn first_text_index(parts: Seq<Option<String>>, from: int) -> int
    decreases parts.len() - from,
{
    if from < 0 || from >= parts.len() {
        parts.len() as int
    } else if parts[from].is_some() {
        from
    } else {
        first_text_index(parts, from + 1)
    }
}

/// The text that the model answered: the first text among the parts of a
/// content that the model said.
pub open spec fn assistant_text(content: ResponseContent) -> Result<Seq<char>, ResponseFault> {
    if content.role@ != "model"@ {
        Err(ResponseFault::NotFromModel)
    } else if first_text_index(content.parts@, 0) >= content.parts@.len() {
        Err(ResponseFault::NoText)
    } else {
        Ok(content.parts@[first_text_index(content.parts@, 0)]->Some_0@)
    }
}

/// Extract the text that the model answered from a content.
pub fn extract_assistant_text(content: &ResponseContent) -> (r: Result<&String, ResponseFault>)
    ensures
        match assistant_text(*content) {
            Ok(text) => r matches Ok(found) && found@ == text,
            Err(fault) => r == Err::<&String, ResponseFault>(fault),
        },
{
    if !crate::text::str_eq(content.role.as_str(), "model") {
        return Err(ResponseFault::NotFromModel);
    }
    let mut i: usize = 0;
    while i < content.parts.len()
        invariant
            i <= content.parts@.len(),
            content.role@ == "model"@,
            first_text_index(content.parts@, 0) == first_text_index(content.parts@, i as int),
        decreases content.parts.len() - i,
    {
        match &content.parts[i] {
            Some(text) => {
                return Ok(text);
            },
            None => {},
        }
        i += 1;
    }
    Err(ResponseFault::NoText)
}

/// The text of the answer in a response: that of the content of the first
/// candidate.
pub open spec fn response_text(response: GenerateResponse) -> Result<Seq<char>, ResponseFault> {
    if response.candidates@.len() == 0 {
        Err(ResponseFault::NoCandidates)
    } else {
        match response.candidates@[0] {
            None => Err(ResponseFault::NoContent),
            Some(content) => assistant_text(content),
        }
    }
}

/// The token usage that a response reports.
pub open spec fn response_usage(response: GenerateResponse) -> Option<TokenUsage> {
    match response.usage_metadata {
        Some(usage) => Some(
            TokenUsage {
                prompt_tokens: crate::drivers::token_count(usage.prompt_token_count),
                completion_tokens: (crate::drivers::token_count(usage.thoughts_token_count)
                    + crate::drivers::token_count(usage.candidates_token_count)) as u64,
            },
        ),
        None => None,
    }
}

/// Read a response: the answer of the model as a JSON value, with the token
/// usage.
///
/// A response without a candidate or without a content is a fatal error with
/// the fault's sentence. A content that the model did not say or that holds
/// no text is a transient error with the fault's sentence, and so is a text
/// that is no JSON.
pub fn read_generate_response(response: &GenerateResponse) -> (r: LlmRetryResult<
    ChatCompletionResponse,
>)
    ensures
        match response_text(*response) {
            Err(fault) => if fault.transient() {
                r matches LlmRetryResult::Transient { error } && error@ == fault.message_spec()
            } else {
                r matches LlmRetryResult::Fatal { error } && error@ == fault.message_spec()
            },
            Ok(text) => match crate::json::json_document(text) {
                None => r is Transient,
                Some(document) => r matches LlmRetryResult::Okay { output } && output.response@
                    == document && output.token_usage == response_usage(*response),
            },
        },
{
    if response.candidates.len() == 0 {
        return LlmRetryResult::Fatal { error: ResponseFault::NoCandidates.message() };
    }
    let content = match &response.candidates[0] {
        Some(content) => content,
        None => {
            return LlmRetryResult::Fatal { error: ResponseFault::NoContent.message() };
        },
    };
    let text = match extract_assistant_text(content) {
        Ok(text) => text,
        Err(fault) => {
            return LlmRetryResult::Transient { error: fault.message() };
        },
    };
    match crate::json::json_from_str(text.as_str()) {
        Ok(document) => {
            let token_usage = match response.usage_metadata {
                Some(usage) => Some(
                    vertex_token_usage(
                        usage.prompt_token_count,
                        usage.thoughts_token_count,
                        usage.candidates_token_count,
                    ),
                ),
                None => None,
            };
            LlmRetryResult::Okay { output: ChatCompletionResponse { response: document, token_usage } }
        },
        Err(reason) => {
            let mut error = String::from_str("Failed to parse Vertex AI response as JSON: ");
            error.append(text.as_str());
            error.append(": ");
            error.append(reason.as_str());
            LlmRetryResult::Transient { error }
        },
    }
}

} // verus!
