//! What the LLM-based OCR engine asks of the chat queue for a page, and how it
//! reads the answer.

use vstd::prelude::*;
use crate::json::{member, Json, JsonObject};
use crate::queues::chat::{ChatInput, ChatOutput};
use crate::queues::ocr::engines::{page_work_id, OcrPageOutput};
use crate::queues::ocr::{ImageSource, OcrAnalysis};
use crate::queues::work::{WorkInput, WorkOutput};
use crate::text::str_eq;

verus! {

/// The template bindings of the prompt for one page: the page itself, and the
/// example input and output of the prompt.
pub fn page_bindings(page_data_url: String, example_input_data_url: String, example_output: String)
    -> (bindings: JsonObject)
    ensures
        bindings@.len() == 3,
        bindings@[0].0@ == "page_data_url"@ && bindings@[0].1 == Json::Text(page_data_url),
        bindings@[1].0@ == "example_input_data_url"@ && bindings@[1].1 == Json::Text(
            example_input_data_url,
        ),
        bindings@[2].0@ == "example_output"@ && bindings@[2].1 == Json::Text(example_output),
{
    let mut bindings: Vec<(String, Json)> = Vec::new();
    bindings.push(member("page_data_url", Json::Text(page_data_url)));
    bindings.push(member("example_input_data_url", Json::Text(example_input_data_url)));
    bindings.push(member("example_output", Json::Text(example_output)));
    bindings
}

/// The chat input for the page `page_idx` of the document `id`.
pub fn page_chat_input(id: Json, page_idx: usize, template_bindings: JsonObject) -> (input:
    WorkInput<ChatInput>)
    ensures
        input.id matches Json::Array(items) && items@ == seq![
            id,
            Json::Number(crate::json::JsonNumber::PosInt(page_idx as u64)),
        ],
        input.data.skip_processing.is_none(),
        input.data.passthrough_data.is_none(),
        input.data.template_bindings == template_bindings,
{
    WorkInput {
        id: page_work_id(id, page_idx),
        data: ChatInput { skip_processing: None, passthrough_data: None, template_bindings },
    }
}

/// The boolean member `key` of `value`.
pub open spec fn bool_field(value: Json, key: Seq<char>) -> Option<bool> {
    match value.member(key) {
        Some(Json::Bool(b)) => Some(b),
        _ => None,
    }
}

/// The string member `key` of `value`.
pub open spec fn text_field(value: Json, key: Seq<char>) -> Option<Seq<char>> {
    match value.member(key) {
        Some(Json::Text(s)) => Some(s@),
        _ => None,
    }
}

/// The image source that `name` names.
pub open spec fn parse_image_source(name: Seq<char>) -> Option<ImageSource> {
    if name == "PHOTO_OR_VIDEO"@ {
        Some(ImageSource::PhotoOrVideo)
    } else if name == "SCAN"@ {
        Some(ImageSource::Scan)
    } else if name == "DIGITAL"@ {
        Some(ImageSource::Digital)
    } else {
        None
    }
}

/// Whether `key` names a field of an analysis.
pub open spec fn is_analysis_field(key: Seq<char>) -> bool {
    key == "image_source"@ || key == "contains_handwriting"@ || key
        == "contains_unreadable_or_ambiguous_text"@ || key == "background_is_noisy"@ || key
        == "contains_faint_text"@ || key == "contains_blurred_text"@ || key
        == "contains_distorted_text"@ || key == "contains_cutoff_text"@ || key
        == "glare_on_some_text"@
}

/// Whether `key` names a field of the answer for a page.
pub open spec fn is_response_field(key: Seq<char>) -> bool {
    key == "full_markdown"@ || key == "analysis"@
}

/// The analysis that `value` holds: an object with every field of an
/// analysis and no other member.
pub open spec fn parse_analysis(value: Json) -> Option<OcrAnalysis> {
    if value matches Json::Object(members) && (forall|i: int|
        0 <= i < members@.len() ==> is_analysis_field((#[trigger] members@[i]).0@))
        && text_field(value, "image_source"@).is_some() && parse_image_source(
        text_field(value, "image_source"@)->Some_0,
    ).is_some() && bool_field(value, "contains_handwriting"@).is_some() && bool_field(
        value,
        "contains_unreadable_or_ambiguous_text"@,
    ).is_some() && bool_field(value, "background_is_noisy"@).is_some() && bool_field(
        value,
        "contains_faint_text"@,
    ).is_some() && bool_field(value, "contains_blurred_text"@).is_some() && bool_field(
        value,
        "contains_distorted_text"@,
    ).is_some() && bool_field(value, "contains_cutoff_text"@).is_some() && bool_field(
        value,
        "glare_on_some_text"@,
    ).is_some() {
        Some(
            OcrAnalysis {
                image_source: parse_image_source(text_field(value, "image_source"@)->Some_0)->Some_0,
                contains_handwriting: bool_field(value, "contains_handwriting"@)->Some_0,
                contains_unreadable_or_ambiguous_text: bool_field(
                    value,
                    "contains_unreadable_or_ambiguous_text"@,
                )->Some_0,
                background_is_noisy: bool_field(value, "background_is_noisy"@)->Some_0,
                contains_faint_text: bool_field(value, "contains_faint_text"@)->Some_0,
                contains_blurred_text: bool_field(value, "contains_blurred_text"@)->Some_0,
                contains_distorted_text: bool_field(value, "contains_distorted_text"@)->Some_0,
                contains_cutoff_text: bool_field(value, "contains_cutoff_text"@)->Some_0,
                glare_on_some_text: bool_field(value, "glare_on_some_text"@)->Some_0,
            },
        )
    } else {
        None
    }
}

/// What the answer for a page holds.
pub enum PageAnswer {
    /// There is no answer: the page has no text.
    Nothing,
    /// The text of the page in Markdown, and the analysis of the page.
    Page { full_markdown: Seq<char>, analysis: OcrAnalysis },
    /// The answer is not what the schema of the prompt asks for.
    Malformed,
}

/// Read the answer for a page. No response and `null` are no answer. Any
/// other answer is an object with the string `full_markdown` and the object
/// `analysis`, and with no other member.
pub open spec fn parse_page_answer(response: Option<Json>) -> PageAnswer {
    match response {
        None => PageAnswer::Nothing,
        Some(Json::Null) => PageAnswer::Nothing,
        Some(value) => if value matches Json::Object(members) && (forall|i: int|
            0 <= i < members@.len() ==> is_response_field((#[trigger] members@[i]).0@))
            && text_field(value, "full_markdown"@).is_some() && value.member("analysis"@).is_some()
            && parse_analysis(value.member("analysis"@)->Some_0).is_some() {
            PageAnswer::Page {
                full_markdown: text_field(value, "full_markdown"@)->Some_0,
                analysis: parse_analysis(value.member("analysis"@)->Some_0)->Some_0,
            }
        } else {
            PageAnswer::Malformed
        },
    }
}

fn get_bool(value: &Json, key: &str) -> (b: Option<bool>)
    ensures
        b == bool_field(*value, key@),
{
    match value.get(key) {
        Some(Json::Bool(b)) => Some(*b),
        _ => None,
    }
}

fn is_analysis_key(key: &str) -> (b: bool)
    ensures
        b == is_analysis_field(key@),
{
    str_eq(key, "image_source") || str_eq(key, "contains_handwriting") || str_eq(
        key,
        "contains_unreadable_or_ambiguous_text",
    ) || str_eq(key, "background_is_noisy") || str_eq(key, "contains_faint_text") || str_eq(
        key,
        "contains_blurred_text",
    ) || str_eq(key, "contains_distorted_text") || str_eq(key, "contains_cutoff_text") || str_eq(
        key,
        "glare_on_some_text",
    )
}

/// Read an analysis from a JSON value.
pub fn read_analysis(value: &Json) -> (analysis: Option<OcrAnalysis>)
    ensures
        analysis == parse_analysis(*value),
{
    let members = match value {
        Json::Object(members) => members,
        _ => {
            return None;
        },
    };
    let mut i: usize = 0;
    while i < members.len()
        invariant
            i <= members@.len(),
            *value == Json::Object(*members),
            forall|k: int| 0 <= k < i ==> is_analysis_field((#[trigger] members@[k]).0@),
        decreases members.len() - i,
    {
        if !is_analysis_key(members[i].0.as_str()) {
            return None;
        }
        i += 1;
    }
    let image_source = match value.get("image_source") {
        Some(Json::Text(name)) => {
            if str_eq(name.as_str(), "PHOTO_OR_VIDEO") {
                ImageSource::PhotoOrVideo
            } else if str_eq(name.as_str(), "SCAN") {
                ImageSource::Scan
            } else if str_eq(name.as_str(), "DIGITAL") {
                ImageSource::Digital
            } else {
                return None;
            }
        },
        _ => {
            return None;
        },
    };
    let contains_handwriting = match get_bool(value, "contains_handwriting") {
        Some(b) => b,
        None => {
            return None;
        },
    };
    let contains_unreadable_or_ambiguous_text = match get_bool(
        value,
        "contains_unreadable_or_ambiguous_text",
    ) {
        Some(b) => b,
        None => {
            return None;
        },
    };
    let background_is_noisy = match get_bool(value, "background_is_noisy") {
        Some(b) => b,
        None => {
            return None;
        },
    };
    let contains_faint_text = match get_bool(value, "contains_faint_text") {
        Some(b) => b,
        None => {
            return None;
        },
    };
    let contains_blurred_text = match get_bool(value, "contains_blurred_text") {
        Some(b) => b,
        None => {
            return None;
        },
    };
    let contains_distorted_text = match get_bool(value, "contains_distorted_text") {
        Some(b) => b,
        None => {
            return None;
        },
    };
    let contains_cutoff_text = match get_bool(value, "contains_cutoff_text") {
        Some(b) => b,
        None => {
            return None;
        },
    };
    let glare_on_some_text = match get_bool(value, "glare_on_some_text") {
        Some(b) => b,
        None => {
            return None;
        },
    };
    Some(
        OcrAnalysis {
            image_source,
            contains_handwriting,
            contains_unreadable_or_ambiguous_text,
            background_is_noisy,
            contains_faint_text,
            contains_blurred_text,
            contains_distorted_text,
            contains_cutoff_text,
            glare_on_some_text,
        },
    )
}

/// Why the output of the chat queue gives no page.
#[derive(Debug, Clone, Copy, PartialEq, Eq, Structural)]
pub enum PageResponseError {
    /// The response is not what the schema of the prompt asks for.
    Malformed,
}

impl PageResponseError {
    /// A sentence that describes the error.
    pub fn message(&self) -> (s: String)
        ensures
            s@ == "failed to parse LLM OCR response"@,
    {
        String::from_str("failed to parse LLM OCR response")
    }
}

/// Turn the output of the chat queue for a page into the output of the page.
///
/// The page takes over the errors, the cost and the token usage of the chat
/// output. Its text and its analysis come from the response; a chat output
/// without a response gives a page without a text.
pub fn page_output_from_chat(chat_output: WorkOutput<ChatOutput>) -> (r: Result<
    OcrPageOutput,
    PageResponseError,
>)
    ensures
        match parse_page_answer(chat_output.data.response) {
            PageAnswer::Malformed => r == Err::<OcrPageOutput, PageResponseError>(
                PageResponseError::Malformed,
            ),
            PageAnswer::Nothing => r matches Ok(page) && page.text.is_none()
                && page.analysis.is_none() && page.errors == chat_output.errors
                && page.estimated_cost == chat_output.estimated_cost && page.token_usage
                == chat_output.token_usage,
            PageAnswer::Page { full_markdown, analysis } => r matches Ok(page) && page.text matches Some(
                text,
            ) && text@ == full_markdown && page.analysis == Some(analysis) && page.errors
                == chat_output.errors && page.estimated_cost == chat_output.estimated_cost
                && page.token_usage == chat_output.token_usage,
        },
{
    let WorkOutput { id: _, status: _, estimated_cost, token_usage, errors, data } = chat_output;
    let response = match data.response {
        None => {
            return Ok(
                OcrPageOutput { text: None, errors, analysis: None, estimated_cost, token_usage },
            );
        },
        Some(Json::Null) => {
            return Ok(
                OcrPageOutput { text: None, errors, analysis: None, estimated_cost, token_usage },
            );
        },
        Some(response) => response,
    };
    let members = match &response {
        Json::Object(members) => members,
        _ => {
            return Err(PageResponseError::Malformed);
        },
    };
    let mut i: usize = 0;
    while i < members.len()
        invariant
            i <= members@.len(),
            response == Json::Object(*members),
            chat_output.data.response == Some(response),
            forall|k: int| 0 <= k < i ==> is_response_field((#[trigger] members@[k]).0@),
        decreases members.len() - i,
    {
        let key = members[i].0.as_str();
        if !(str_eq(key, "full_markdown") || str_eq(key, "analysis")) {
            assert(!is_response_field(members@[i as int].0@));
            return Err(PageResponseError::Malformed);
        }
        i += 1;
    }
    let text = match response.get("full_markdown") {
        Some(Json::Text(text)) => text.clone(),
        _ => {
            return Err(PageResponseError::Malformed);
        },
    };
    let analysis = match response.get("analysis") {
        Some(value) => match read_analysis(value) {
            Some(analysis) => analysis,
            None => {
                return Err(PageResponseError::Malformed);
            },
        },
        None => {
            return Err(PageResponseError::Malformed);
        },
    };
    Ok(
        OcrPageOutput {
            text: Some(text),
            errors,
            analysis: Some(analysis),
            estimated_cost,
            token_usage,
        },
    )
}

} // verus!
