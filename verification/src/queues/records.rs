//! The records of the pipelines as JSON: how an input record is read from a
//! JSON object and how an output record is written as one.

use vstd::prelude::*;
use crate::drivers::{Cost, TokenUsage};
use crate::json::{
    clone_members, find_member, items_view, json_text, json_view, lemma_items_view,
    lemma_member_index, lemma_members_view, member, member_index, members_view, Json, JsonNumber,
    JsonNumberView, JsonObject, JsonView,
};
use crate::queues::chat::{ChatInput, ChatOutput};
use crate::queues::ocr::{ImageSource, OcrAnalysis, OcrInput, OcrOutput};
use crate::queues::work::{WorkInput, WorkOutput, WorkStatus};
use crate::text::{decimal_digits, padded_digits, push_decimal, push_padded, str_eq};

verus! {

/// Why a JSON value is no input record.
#[derive(Debug, Clone, Copy, PartialEq, Eq, Structural)]
pub enum RecordError {
    /// The value is not an object.
    NotAnObject,
    /// The object has no member `id`.
    MissingId,
    /// The object has no member `path`.
    MissingPath,
    /// The member `skip_processing` is neither a boolean nor null.
    InvalidSkipProcessing,
    /// The member `passthrough_data` is neither an object nor null.
    InvalidPassthroughData,
    /// The member `path` is not a string.
    InvalidPath,
    /// The member `password` is neither a string nor null.
    InvalidPassword,
    /// The object has a member that the record does not know.
    UnknownField,
}

impl RecordError {
    /// The sentence that `message` returns.
    pub open spec fn message_spec(&self) -> Seq<char> {
        match self {
            RecordError::NotAnObject => "failed to deserialize input: expected an object"@,
            RecordError::MissingId => "failed to deserialize input: missing field `id`"@,
            RecordError::MissingPath => "failed to deserialize input: missing field `path`"@,
            RecordError::InvalidSkipProcessing =>
                "failed to deserialize input: `skip_processing` must be a boolean"@,
            RecordError::InvalidPassthroughData =>
                "failed to deserialize input: `passthrough_data` must be an object"@,
            RecordError::InvalidPath => "failed to deserialize input: `path` must be a string"@,
            RecordError::InvalidPassword =>
                "failed to deserialize input: `password` must be a string"@,
            RecordError::UnknownField => "failed to deserialize input: unknown field"@,
        }
    }

    /// A sentence that describes the error.
    pub fn message(&self) -> (s: String)
        ensures
            s@ == self.message_spec(),
    {
        match self {
            RecordError::NotAnObject => String::from_str(
                "failed to deserialize input: expected an object",
            ),
            RecordError::MissingId => String::from_str(
                "failed to deserialize input: missing field `id`",
            ),
            RecordError::MissingPath => String::from_str(
                "failed to deserialize input: missing field `path`",
            ),
            RecordError::InvalidSkipProcessing => String::from_str(
                "failed to deserialize input: `skip_processing` must be a boolean",
            ),
            RecordError::InvalidPassthroughData => String::from_str(
                "failed to deserialize input: `passthrough_data` must be an object",
            ),
            RecordError::InvalidPath => String::from_str(
                "failed to deserialize input: `path` must be a string",
            ),
            RecordError::InvalidPassword => String::from_str(
                "failed to deserialize input: `password` must be a string",
            ),
            RecordError::UnknownField => String::from_str(
                "failed to deserialize input: unknown field",
            ),
        }
    }
}

/// Whether a member of a chat input record is one of the fields of the
/// record itself, and no template binding.
pub open spec fn is_chat_field(key: Seq<char>) -> bool {
    key == "id"@ || key == "skip_processing"@ || key == "passthrough_data"@
}

/// The members of a chat input record that are template bindings: all but the
/// fields of the record itself, in order.
pub open spec fn template_bindings_of(members: Seq<(String, Json)>) -> Seq<(String, Json)>
    decreases members.len(),
{
    if members.len() == 0 {
        Seq::empty()
    } else if is_chat_field(members.last().0@) {
        template_bindings_of(members.drop_last())
    } else {
        template_bindings_of(members.drop_last()).push(members.last())
    }
}

/// The first member named `key`, if there is one.
pub open spec fn first_member(members: Seq<(String, Json)>, key: Seq<char>) -> Option<Json> {
    let i = member_index(members, key);
    if i < members.len() {
        Some(members[i].1)
    } else {
        None
    }
}

/// What is wrong with the fields of a chat input record, if anything.
pub open spec fn chat_record_fault(members: Seq<(String, Json)>) -> Option<RecordError> {
    if first_member(members, "id"@).is_none() {
        Some(RecordError::MissingId)
    } else if !(match first_member(members, "skip_processing"@) {
        None => true,
        Some(Json::Null) => true,
        Some(Json::Bool(_)) => true,
        _ => false,
    }) {
        Some(RecordError::InvalidSkipProcessing)
    } else if !(match first_member(members, "passthrough_data"@) {
        None => true,
        Some(Json::Null) => true,
        Some(Json::Object(_)) => true,
        _ => false,
    }) {
        Some(RecordError::InvalidPassthroughData)
    } else {
        None
    }
}

/// The first member named `key` among the first `n + 1` members is the one
/// among the first `n`, or else the member at `n` where that is named `key`.
pub proof fn lemma_first_member_step(members: Seq<(String, Json)>, key: Seq<char>, n: int)
    requires
        0 <= n < members.len(),
    ensures
        first_member(members.take(n + 1), key) == (match first_member(members.take(n), key) {
            Some(value) => Some(value),
            None => if members[n].0@ == key {
                Some(members[n].1)
            } else {
                None
            },
        }),
{
    let short = members.take(n);
    let long = members.take(n + 1);
    lemma_member_index(short, key);
    let i = member_index(short, key);
    if i < short.len() {
        assert(long[i] == short[i]);
        assert forall|k: int| 0 <= k < i implies (#[trigger] long[k]).0@ != key by {
            assert(long[k] == short[k]);
        }
        crate::json::lemma_member_index_unique(long, key, i);
    } else {
        assert forall|k: int| 0 <= k < n implies (#[trigger] long[k]).0@ != key by {
            assert(long[k] == short[k]);
        }
        if members[n].0@ == key {
            crate::json::lemma_member_index_unique(long, key, n);
        } else {
            crate::json::lemma_member_index_unique(long, key, n + 1);
        }
    }
}

/// Whether `r` is what reading `value` as a chat input record gives: the
/// fault of the record where it has one, and otherwise the record with its
/// `id`, its `skip_processing` where that is a boolean, its
/// `passthrough_data` where that is an object, and every other member as a
/// template binding.
pub open spec fn chat_input_reads(value: Json, r: Result<WorkInput<ChatInput>, RecordError>) -> bool {
    match value {
        Json::Object(members) => match chat_record_fault(members@) {
            Some(e) => r == Err::<WorkInput<ChatInput>, RecordError>(e),
            None => r matches Ok(input) && {
                &&& Some(input.id) == first_member(members@, "id"@)
                &&& input.data.skip_processing == (match first_member(
                    members@,
                    "skip_processing"@,
                ) {
                    Some(Json::Bool(b)) => Some(b),
                    _ => None,
                })
                &&& match first_member(members@, "passthrough_data"@) {
                    Some(Json::Object(data)) => input.data.passthrough_data == Some(data),
                    _ => input.data.passthrough_data.is_none(),
                }
                &&& input.data.template_bindings@ == template_bindings_of(members@)
            },
        },
        _ => r == Err::<WorkInput<ChatInput>, RecordError>(RecordError::NotAnObject),
    }
}

impl WorkInput<ChatInput> {
    /// Read a chat input record from a JSON value.
    ///
    /// The record is an object with an `id` of any kind, an optional boolean
    /// `skip_processing`, an optional object `passthrough_data`, and any other
    /// members, which are the bindings of the prompt template. Where a field
    /// of the record occurs more than once, its first occurrence counts.
    pub fn from_json(value: Json) -> (r: Result<Self, RecordError>)
        ensures
            chat_input_reads(value, r),
    {
        let members = match value {
            Json::Object(members) => members,
            _ => {
                return Err(RecordError::NotAnObject);
            },
        };
        let ghost all = members@;
        let mut id: Option<Json> = None;
        let mut skip: Option<Json> = None;
        let mut passthrough: Option<Json> = None;
        let mut template_bindings: Vec<(String, Json)> = Vec::new();
        proof {
            lemma_member_index(all.take(0), "id"@);
            lemma_member_index(all.take(0), "skip_processing"@);
            lemma_member_index(all.take(0), "passthrough_data"@);
        }
        for entry in it: members
            invariant
                it.seq() == all,
                id == first_member(all.take(it.index() as int), "id"@),
                skip == first_member(all.take(it.index() as int), "skip_processing"@),
                passthrough == first_member(all.take(it.index() as int), "passthrough_data"@),
                template_bindings@ == template_bindings_of(all.take(it.index() as int)),
        {
            proof {
                let n = it.index() as int;
                lemma_first_member_step(all, "id"@, n);
                lemma_first_member_step(all, "skip_processing"@, n);
                lemma_first_member_step(all, "passthrough_data"@, n);
                assert(all.take(n + 1).drop_last() =~= all.take(n));
                assert(all.take(n + 1).last() == entry);
                reveal_strlit("id");
                reveal_strlit("skip_processing");
                reveal_strlit("passthrough_data");
                assert("id"@.len() == 2);
                assert("skip_processing"@.len() == 15);
                assert("passthrough_data"@.len() == 16);
            }
            let (key, value) = entry;
            if str_eq(key.as_str(), "id") {
                if id.is_none() {
                    id = Some(value);
                }
            } else if str_eq(key.as_str(), "skip_processing") {
                if skip.is_none() {
                    skip = Some(value);
                }
            } else if str_eq(key.as_str(), "passthrough_data") {
                if passthrough.is_none() {
                    passthrough = Some(value);
                }
            } else {
                template_bindings.push((key, value));
            }
        }
        assert(all.take(all.len() as int) =~= all);
        let id = match id {
            Some(id) => id,
            None => {
                return Err(RecordError::MissingId);
            },
        };
        let skip_processing = match skip {
            None => None,
            Some(Json::Null) => None,
            Some(Json::Bool(b)) => Some(b),
            Some(_) => {
                return Err(RecordError::InvalidSkipProcessing);
            },
        };
        let passthrough_data = match passthrough {
            None => None,
            Some(Json::Null) => None,
            Some(Json::Object(data)) => Some(data),
            Some(_) => {
                return Err(RecordError::InvalidPassthroughData);
            },
        };
        Ok(WorkInput { id, data: ChatInput { skip_processing, passthrough_data, template_bindings } })
    }
}

} // verus!

verus! {

/// Whether a member of an OCR input record is one of its fields.
pub open spec fn is_ocr_field(key: Seq<char>) -> bool {
    key == "id"@ || key == "path"@ || key == "password"@
}

/// Whether an object has a member that an OCR input record does not know.
pub open spec fn has_unknown_ocr_field(members: Seq<(String, Json)>) -> bool {
    exists|i: int| 0 <= i < members.len() && !is_ocr_field((#[trigger] members[i]).0@)
}

/// What is wrong with an OCR input record, if anything: an unknown member,
/// then a missing field, then a field of the wrong kind.
pub open spec fn ocr_record_fault(members: Seq<(String, Json)>) -> Option<RecordError> {
    if has_unknown_ocr_field(members) {
        Some(RecordError::UnknownField)
    } else if first_member(members, "id"@).is_none() {
        Some(RecordError::MissingId)
    } else if first_member(members, "path"@).is_none() {
        Some(RecordError::MissingPath)
    } else if !(first_member(members, "path"@) matches Some(Json::Text(_))) {
        Some(RecordError::InvalidPath)
    } else if !(match first_member(members, "password"@) {
        None => true,
        Some(Json::Null) => true,
        Some(Json::Text(_)) => true,
        _ => false,
    }) {
        Some(RecordError::InvalidPassword)
    } else {
        None
    }
}

/// Whether `r` is what reading `value` as an OCR input record gives: the
/// fault of the record where it has one, and otherwise the record with its
/// `id`, its `path` and its `password` where that is a string.
pub open spec fn ocr_input_reads(value: Json, r: Result<WorkInput<OcrInput>, RecordError>) -> bool {
    match value {
        Json::Object(members) => match ocr_record_fault(members@) {
            Some(e) => r == Err::<WorkInput<OcrInput>, RecordError>(e),
            None => r matches Ok(input) && {
                &&& Some(input.id) == first_member(members@, "id"@)
                &&& Some(Json::Text(input.data.path)) == first_member(members@, "path"@)
                &&& match first_member(members@, "password"@) {
                    Some(Json::Text(password)) => input.data.password == Some(password),
                    _ => input.data.password.is_none(),
                }
            },
        },
        _ => r == Err::<WorkInput<OcrInput>, RecordError>(RecordError::NotAnObject),
    }
}

impl WorkInput<OcrInput> {
    /// Read an OCR input record from a JSON value.
    ///
    /// The record is an object with an `id` of any kind, a string `path` and
    /// an optional string `password`, and with no other member. Where a field
    /// occurs more than once, its first occurrence counts.
    pub fn from_json(value: Json) -> (r: Result<Self, RecordError>)
        ensures
            ocr_input_reads(value, r),
    {
        let members = match value {
            Json::Object(members) => members,
            _ => {
                return Err(RecordError::NotAnObject);
            },
        };
        let ghost all = members@;
        let mut id: Option<Json> = None;
        let mut path: Option<Json> = None;
        let mut password: Option<Json> = None;
        let mut unknown = false;
        proof {
            lemma_member_index(all.take(0), "id"@);
            lemma_member_index(all.take(0), "path"@);
            lemma_member_index(all.take(0), "password"@);
        }
        for entry in it: members
            invariant
                it.seq() == all,
                id == first_member(all.take(it.index() as int), "id"@),
                path == first_member(all.take(it.index() as int), "path"@),
                password == first_member(all.take(it.index() as int), "password"@),
                unknown == has_unknown_ocr_field(all.take(it.index() as int)),
        {
            proof {
                let n = it.index() as int;
                lemma_first_member_step(all, "id"@, n);
                lemma_first_member_step(all, "path"@, n);
                lemma_first_member_step(all, "password"@, n);
                reveal_strlit("id");
                reveal_strlit("path");
                reveal_strlit("password");
                assert("id"@.len() == 2);
                assert("path"@.len() == 4);
                assert("password"@.len() == 8);
                let short = all.take(n);
                let long = all.take(n + 1);
                assert(long[n] == entry);
                if has_unknown_ocr_field(short) {
                    let w = choose|i: int|
                        0 <= i < short.len() && !is_ocr_field((#[trigger] short[i]).0@);
                    assert(long[w] == short[w]);
                }
                if has_unknown_ocr_field(long) && is_ocr_field(entry.0@) {
                    let w = choose|i: int|
                        0 <= i < long.len() && !is_ocr_field((#[trigger] long[i]).0@);
                    assert(short[w] == long[w]);
                }
            }
            let (key, value) = entry;
            if str_eq(key.as_str(), "id") {
                if id.is_none() {
                    id = Some(value);
                }
            } else if str_eq(key.as_str(), "path") {
                if path.is_none() {
                    path = Some(value);
                }
            } else if str_eq(key.as_str(), "password") {
                if password.is_none() {
                    password = Some(value);
                }
            } else {
                unknown = true;
            }
        }
        assert(all.take(all.len() as int) =~= all);
        if unknown {
            return Err(RecordError::UnknownField);
        }
        let id = match id {
            Some(id) => id,
            None => {
                return Err(RecordError::MissingId);
            },
        };
        let path = match path {
            None => {
                return Err(RecordError::MissingPath);
            },
            Some(Json::Text(path)) => path,
            Some(_) => {
                return Err(RecordError::InvalidPath);
            },
        };
        let password = match password {
            None => None,
            Some(Json::Null) => None,
            Some(Json::Text(password)) => Some(password),
            Some(_) => {
                return Err(RecordError::InvalidPassword);
            },
        };
        Ok(WorkInput { id, data: OcrInput { path, password } })
    }
}

/// A member under `key`, where there is a value.
pub open spec fn opt_member(key: Seq<char>, value: Option<JsonView>) -> Seq<(Seq<char>, JsonView)> {
    match value {
        Some(v) => seq![(key, v)],
        None => Seq::empty(),
    }
}

/// How a cost is written: the dollars, a point, and twelve decimals.
pub open spec fn cost_text(cost: Cost) -> Seq<char> {
    decimal_digits((cost.picodollars / 1_000_000_000_000) as nat).push('.') + padded_digits(
        (cost.picodollars % 1_000_000_000_000) as nat,
        12,
    )
}

/// A cost as a JSON number: the exact number of dollars.
pub open spec fn cost_json(cost: Cost) -> JsonView {
    JsonView::Number(JsonNumberView::Real(cost_text(cost)))
}

/// A token usage as a JSON object.
pub open spec fn usage_json(usage: TokenUsage) -> JsonView {
    JsonView::Object(
        seq![
            ("prompt_tokens"@, JsonView::Number(JsonNumberView::PosInt(usage.prompt_tokens))),
            (
                "completion_tokens"@,
                JsonView::Number(JsonNumberView::PosInt(usage.completion_tokens)),
            ),
        ],
    )
}

/// Errors as a JSON array of strings.
pub open spec fn errors_json(errors: Seq<String>) -> JsonView {
    JsonView::Array(Seq::new(errors.len(), |i: int| JsonView::Text(errors[i]@)))
}

/// The members that every output record starts with: `id`, `status`, the
/// cost and the token usage where there are any, and `errors`.
pub open spec fn common_members<T>(out: WorkOutput<T>) -> Seq<(Seq<char>, JsonView)> {
    seq![("id"@, out.id@), ("status"@, JsonView::Text(out.status.name()))] + opt_member(
        "estimated_cost"@,
        match out.estimated_cost {
            Some(c) => Some(cost_json(c)),
            None => None,
        },
    ) + opt_member(
        "token_usage"@,
        match out.token_usage {
            Some(u) => Some(usage_json(u)),
            None => None,
        },
    ) + seq![("errors"@, errors_json(out.errors@))]
}

/// A chat output record as a JSON object: the common members, then the
/// response and the passthrough data where there are any.
pub open spec fn chat_output_json(out: WorkOutput<ChatOutput>) -> JsonView {
    JsonView::Object(
        common_members(out) + opt_member(
            "response"@,
            match out.data.response {
                Some(r) => Some(r@),
                None => None,
            },
        ) + opt_member(
            "passthrough_data"@,
            match out.data.passthrough_data {
                Some(data) => Some(JsonView::Object(members_view(data@))),
                None => None,
            },
        ),
    )
}

/// The name of an image source in a record.
pub open spec fn image_source_name(source: ImageSource) -> Seq<char> {
    match source {
        ImageSource::PhotoOrVideo => "PHOTO_OR_VIDEO"@,
        ImageSource::Scan => "SCAN"@,
        ImageSource::Digital => "DIGITAL"@,
    }
}

/// An analysis as a JSON object.
pub open spec fn analysis_json(a: OcrAnalysis) -> JsonView {
    JsonView::Object(
        seq![
            ("image_source"@, JsonView::Text(image_source_name(a.image_source))),
            ("contains_handwriting"@, JsonView::Bool(a.contains_handwriting)),
            (
                "contains_unreadable_or_ambiguous_text"@,
                JsonView::Bool(a.contains_unreadable_or_ambiguous_text),
            ),
            ("background_is_noisy"@, JsonView::Bool(a.background_is_noisy)),
            ("contains_faint_text"@, JsonView::Bool(a.contains_faint_text)),
            ("contains_blurred_text"@, JsonView::Bool(a.contains_blurred_text)),
            ("contains_distorted_text"@, JsonView::Bool(a.contains_distorted_text)),
            ("contains_cutoff_text"@, JsonView::Bool(a.contains_cutoff_text)),
            ("glare_on_some_text"@, JsonView::Bool(a.glare_on_some_text)),
        ],
    )
}

/// An OCR output record as a JSON object: the common members, then `path`,
/// `text` and `page_count`, which are null where they are unknown, and the
/// analysis where there is one.
pub open spec fn ocr_output_json(out: WorkOutput<OcrOutput>) -> JsonView {
    JsonView::Object(
        common_members(out) + seq![
            ("path"@, JsonView::Text(out.data.path@)),
            (
                "text"@,
                match out.data.text {
                    Some(t) => JsonView::Text(t@),
                    None => JsonView::Null,
                },
            ),
            (
                "page_count"@,
                match out.data.page_count {
                    Some(n) => JsonView::Number(JsonNumberView::PosInt(n as u64)),
                    None => JsonView::Null,
                },
            ),
        ] + opt_member(
            "analysis"@,
            match out.data.analysis {
                Some(a) => Some(analysis_json(a)),
                None => None,
            },
        ),
    )
}

fn errors_to_json(errors: &Vec<String>) -> (json: Json)
    ensures
        json@ == errors_json(errors@),
{
    let mut items: Vec<Json> = Vec::new();
    let mut i: usize = 0;
    while i < errors.len()
        invariant
            i <= errors@.len(),
            items@.len() == i,
            forall|k: int| 0 <= k < i ==> json_view(#[trigger] items@[k]) == JsonView::Text(errors@[k]@),
        decreases errors.len() - i,
    {
        items.push(Json::Text(errors[i].clone()));
        i += 1;
    }
    proof {
        lemma_items_view(items@);
        assert(items_view(items@) =~= Seq::new(
            errors@.len(),
            |i: int| JsonView::Text(errors@[i]@),
        ));
    }
    Json::Array(items)
}

fn cost_to_json(cost: &Cost) -> (json: Json)
    ensures
        json@ == cost_json(*cost),
{
    let mut text = String::new();
    push_decimal(&mut text, cost.picodollars / 1_000_000_000_000);
    text.push('.');
    push_padded(&mut text, cost.picodollars % 1_000_000_000_000, 12);
    assert(text@ =~= cost_text(*cost));
    Json::Number(JsonNumber::Real(text))
}

fn usage_to_json(usage: &TokenUsage) -> (json: Json)
    ensures
        json@ == usage_json(*usage),
{
    let mut members: Vec<(String, Json)> = Vec::new();
    members.push(member("prompt_tokens", Json::Number(JsonNumber::PosInt(usage.prompt_tokens))));
    members.push(
        member("completion_tokens", Json::Number(JsonNumber::PosInt(usage.completion_tokens))),
    );
    proof {
        lemma_members_view(members@);
        assert(members_view(members@) =~= usage_json(*usage)->Object_0);
    }
    Json::Object(members)
}

fn analysis_to_json(a: &OcrAnalysis) -> (json: Json)
    ensures
        json@ == analysis_json(*a),
{
    let source = match a.image_source {
        ImageSource::PhotoOrVideo => "PHOTO_OR_VIDEO",
        ImageSource::Scan => "SCAN",
        ImageSource::Digital => "DIGITAL",
    };
    let mut members: Vec<(String, Json)> = Vec::new();
    members.push(member("image_source", json_text(source)));
    members.push(member("contains_handwriting", Json::Bool(a.contains_handwriting)));
    members.push(
        member(
            "contains_unreadable_or_ambiguous_text",
            Json::Bool(a.contains_unreadable_or_ambiguous_text),
        ),
    );
    members.push(member("background_is_noisy", Json::Bool(a.background_is_noisy)));
    members.push(member("contains_faint_text", Json::Bool(a.contains_faint_text)));
    members.push(member("contains_blurred_text", Json::Bool(a.contains_blurred_text)));
    members.push(member("contains_distorted_text", Json::Bool(a.contains_distorted_text)));
    members.push(member("contains_cutoff_text", Json::Bool(a.contains_cutoff_text)));
    members.push(member("glare_on_some_text", Json::Bool(a.glare_on_some_text)));
    proof {
        lemma_members_view(members@);
        assert(members_view(members@) =~= analysis_json(*a)->Object_0);
    }
    Json::Object(members)
}

fn common_to_json<T>(out: &WorkOutput<T>) -> (members: Vec<(String, Json)>)
    ensures
        members_view(members@) == common_members(*out),
{
    let mut members: Vec<(String, Json)> = Vec::new();
    members.push(member("id", out.id.clone()));
    members.push(member("status", json_text(out.status.as_str())));
    match &out.estimated_cost {
        Some(cost) => {
            members.push(member("estimated_cost", cost_to_json(cost)));
        },
        None => {},
    }
    match &out.token_usage {
        Some(usage) => {
            members.push(member("token_usage", usage_to_json(usage)));
        },
        None => {},
    }
    members.push(member("errors", errors_to_json(&out.errors)));
    proof {
        lemma_members_view(members@);
        assert(members_view(members@) =~= common_members(*out));
    }
    members
}

impl WorkOutput<ChatOutput> {
    /// Convert from the output record to a JSON value.
    pub fn to_json(&self) -> (json: Json)
        ensures
            json@ == chat_output_json(*self),
    {
        let mut members = common_to_json(self);
        let ghost common = members@;
        match &self.data.response {
            Some(response) => {
                members.push(member("response", response.clone()));
            },
            None => {},
        }
        match &self.data.passthrough_data {
            Some(data) => {
                members.push(member("passthrough_data", Json::Object(clone_members(data))));
            },
            None => {},
        }
        proof {
            lemma_members_view(members@);
            lemma_members_view(common);
            assert(members_view(members@) =~= chat_output_json(*self)->Object_0);
        }
        Json::Object(members)
    }
}

impl WorkOutput<OcrOutput> {
    /// Convert from the output record to a JSON value.
    pub fn to_json(&self) -> (json: Json)
        ensures
            json@ == ocr_output_json(*self),
    {
        let mut members = common_to_json(self);
        let ghost common = members@;
        members.push(member("path", Json::Text(self.data.path.clone())));
        members.push(
            member(
                "text",
                match &self.data.text {
                    Some(text) => Json::Text(text.clone()),
                    None => Json::Null,
                },
            ),
        );
        members.push(
            member(
                "page_count",
                match self.data.page_count {
                    Some(n) => Json::Number(JsonNumber::PosInt(n as u64)),
                    None => Json::Null,
                },
            ),
        );
        match &self.data.analysis {
            Some(analysis) => {
                members.push(member("analysis", analysis_to_json(analysis)));
            },
            None => {},
        }
        proof {
            lemma_members_view(members@);
            lemma_members_view(common);
            assert(members_view(members@) =~= ocr_output_json(*self)->Object_0);
        }
        Json::Object(members)
    }
}

} // verus!

verus! {

impl crate::toml_utils::Describe for RecordError {
    open spec fn description(&self) -> Seq<char> {
        self.message_spec()
    }

    fn describe(&self) -> (s: String) {
        self.message()
    }
}

/// Why a line of an input file gives no record.
#[derive(Debug, PartialEq, Eq)]
pub enum LineError {
    /// The line is no JSON document.
    Syntax { message: String },
    /// The document is no record.
    Record { error: RecordError },
}

impl WorkInput<ChatInput> {
    /// Read a chat input record from a line of a JSON lines file: a line that
    /// is no JSON document gives a syntax error, and any other line is read as
    /// the document that it holds.
    pub fn from_json_line(line: &str) -> (r: Result<Self, LineError>)
        ensures
            match crate::json::json_document(line@) {
                None => r is Err && r->Err_0 is Syntax,
                Some(document) => exists|value: Json, read: Result<Self, RecordError>|
                    value@ == document && #[trigger] chat_input_reads(value, read) && r == (
                    match read {
                        Ok(input) => Ok::<Self, LineError>(input),
                        Err(error) => Err(LineError::Record { error }),
                    }),
            },
    {
        match crate::json::json_from_str(line) {
            Err(message) => Err(LineError::Syntax { message }),
            Ok(value) => {
                let read = WorkInput::<ChatInput>::from_json(value);
                proof {
                    assert(chat_input_reads(value, read));
                }
                match read {
                    Ok(input) => Ok(input),
                    Err(error) => Err(LineError::Record { error }),
                }
            },
        }
    }
}

impl WorkInput<OcrInput> {
    /// Read an OCR input record from a line of a JSON lines file: a line that
    /// is no JSON document gives a syntax error, and any other line is read as
    /// the document that it holds.
    pub fn from_json_line(line: &str) -> (r: Result<Self, LineError>)
        ensures
            match crate::json::json_document(line@) {
                None => r is Err && r->Err_0 is Syntax,
                Some(document) => exists|value: Json, read: Result<Self, RecordError>|
                    value@ == document && #[trigger] ocr_input_reads(value, read) && r == (
                    match read {
                        Ok(input) => Ok::<Self, LineError>(input),
                        Err(error) => Err(LineError::Record { error }),
                    }),
            },
    {
        match crate::json::json_from_str(line) {
            Err(message) => Err(LineError::Syntax { message }),
            Ok(value) => {
                let read = WorkInput::<OcrInput>::from_json(value);
                proof {
                    assert(ocr_input_reads(value, read));
                }
                match read {
                    Ok(input) => Ok(input),
                    Err(error) => Err(LineError::Record { error }),
                }
            },
        }
    }
}

} // verus!
