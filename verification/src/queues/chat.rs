//! The chat pipeline: what goes in, what comes out, and how the outcome of a
//! request becomes an output record.

use vstd::prelude::*;
use crate::drivers::{ChatCompletionResponse, Cost, TokenPricing, TokenUsage};
use crate::json::{Json, JsonObject, JsonView};
use crate::queues::work::{WorkInput, WorkOutput, WorkStatus};
use crate::retry::{
    lemma_transients_exhaust, lemma_transients_then_ok, resolve_spec, LlmRetryResult, RetryOutcome,
    RetryOutcomeView,
};

verus! {

/// An input record.
#[derive(Debug)]
pub struct ChatInput {
    /// Skip LLM processing and return status: "skipped"
    pub skip_processing: Option<bool>,
    /// Arbitrary data to pass through to output
    pub passthrough_data: Option<JsonObject>,
    /// Other fields. We keep these "flattened" in the record because they're
    /// under the control of the caller, and because our input format may be a
    /// CSV file, which is inherently "flat".
    pub template_bindings: JsonObject,
}

/// An output record.
#[derive(Debug)]
pub struct ChatOutput {
    /// The response from the LLM. If this is present, the request succeeded.
    pub response: Option<Json>,
    /// Passthrough data from input
    pub passthrough_data: Option<JsonObject>,
}

impl ChatOutput {
    /// Create an empty chat output record for use when an error occurs.
    pub fn empty_for_error(passthrough_data: Option<JsonObject>) -> (out: Self)
        ensures
            out.response.is_none(),
            out.passthrough_data == passthrough_data,
    {
        Self { response: None, passthrough_data }
    }
}

/// The status of the output record of a resolved request.
pub open spec fn outcome_status<T>(outcome: RetryOutcomeView<T>) -> WorkStatus {
    if outcome.is_success() {
        WorkStatus::Okay
    } else {
        WorkStatus::Failed
    }
}

/// The response of a resolved request, where it has one.
pub open spec fn outcome_response(outcome: RetryOutcomeView<ChatCompletionResponse>) -> Option<
    ChatCompletionResponse,
> {
    match outcome {
        RetryOutcomeView::Okay { value } => Some(value),
        RetryOutcomeView::Recovered { value, .. } => Some(value),
        _ => None,
    }
}

/// Create a new output record from the outcome of a request.
///
/// A success gives the status `Okay`, the response, its token usage and the
/// cost of that usage at `pricing`; a failure gives `Failed` and none of
/// these. Either way the record carries every error of the request, the
/// transient ones first, and the passthrough data.
pub fn from_resolved_result(
    id: Json,
    pricing: Option<&TokenPricing>,
    result: RetryOutcome<ChatCompletionResponse>,
    passthrough_data: Option<JsonObject>,
) -> (out: WorkOutput<ChatOutput>)
    ensures
        out.id == id,
        out.status == outcome_status(result@),
        out.errors@ == result@.errors(),
        out.data.passthrough_data == passthrough_data,
        match outcome_response(result@) {
            Some(r) => {
                &&& out.data.response == Some(r.response)
                &&& out.token_usage == r.token_usage
                &&& out.estimated_cost == match r.token_usage {
                    Some(u) => u.estimate_cost_spec(
                        match pricing {
                            Some(p) => Some(*p),
                            None => None,
                        },
                    ),
                    None => None,
                }
            },
            None => {
                &&& out.data.response.is_none()
                &&& out.token_usage.is_none()
                &&& out.estimated_cost.is_none()
            },
        },
{
    match result {
        RetryOutcome::Okay { value } => {
            let ChatCompletionResponse { response, token_usage } = value;
            WorkOutput {
                id,
                status: WorkStatus::Okay,
                errors: Vec::new(),
                estimated_cost: estimate_cost(token_usage, pricing),
                token_usage,
                data: ChatOutput { response: Some(response), passthrough_data },
            }
        },
        RetryOutcome::Fatal { error } => {
            let mut errors: Vec<String> = Vec::new();
            errors.push(error);
            WorkOutput::new_failed(id, errors, ChatOutput::empty_for_error(passthrough_data))
        },
        RetryOutcome::Recovered { value, retry_errors } => {
            let ChatCompletionResponse { response, token_usage } = value;
            WorkOutput {
                id,
                status: WorkStatus::Okay,
                errors: retry_errors,
                estimated_cost: estimate_cost(token_usage, pricing),
                token_usage,
                data: ChatOutput { response: Some(response), passthrough_data },
            }
        },
        RetryOutcome::GivenUp { retry_errors, fatal_error } => {
            let mut errors = retry_errors;
            errors.push(fatal_error);
            WorkOutput::new_failed(id, errors, ChatOutput::empty_for_error(passthrough_data))
        },
    }
}

fn estimate_cost(usage: Option<TokenUsage>, pricing: Option<&TokenPricing>) -> (cost: Option<Cost>)
    ensures
        cost == match usage {
            Some(u) => u.estimate_cost_spec(
                match pricing {
                    Some(p) => Some(*p),
                    None => None,
                },
            ),
            None => None,
        },
{
    match usage {
        Some(u) => u.estimate_cost(pricing),
        None => None,
    }
}

/// How the processing of an input record starts.
#[derive(Debug)]
pub enum ChatStart {
    /// The record asked to be skipped: this is its output, and no driver is
    /// called.
    Skipped { output: WorkOutput<ChatOutput> },
    /// The prompt is to be rendered with `template_bindings` and sent.
    Render { id: Json, template_bindings: JsonObject, passthrough_data: Option<JsonObject> },
}

/// Whether a record asks to be skipped.
pub open spec fn skips(input: ChatInput) -> bool {
    input.skip_processing == Some(true)
}

/// Begin the processing of one input record.
///
/// A record with `skip_processing` set gives a `Skipped` output at once, with
/// its ID and passthrough data and nothing else. Any other record is taken
/// apart for rendering.
pub fn begin_chat(input_record: WorkInput<ChatInput>) -> (start: ChatStart)
    ensures
        skips(input_record.data) ==> (start matches ChatStart::Skipped { output } && {
            &&& output.id == input_record.id
            &&& output.status == WorkStatus::Skipped
            &&& output.errors@ == Seq::<String>::empty()
            &&& output.estimated_cost.is_none()
            &&& output.token_usage.is_none()
            &&& output.data.response.is_none()
            &&& output.data.passthrough_data == input_record.data.passthrough_data
        }),
        !skips(input_record.data) ==> start == (ChatStart::Render {
            id: input_record.id,
            template_bindings: input_record.data.template_bindings,
            passthrough_data: input_record.data.passthrough_data,
        }),
{
    let WorkInput { id, data } = input_record;
    let ChatInput { skip_processing, passthrough_data, template_bindings } = data;
    let skip = match skip_processing {
        Some(b) => b,
        None => false,
    };
    if skip {
        ChatStart::Skipped {
            output: WorkOutput {
                id,
                status: WorkStatus::Skipped,
                errors: Vec::new(),
                estimated_cost: None,
                token_usage: None,
                data: ChatOutput { response: None, passthrough_data },
            },
        }
    } else {
        ChatStart::Render { id, template_bindings, passthrough_data }
    }
}

/// Judge one attempt of a request from what the driver returned and what the
/// validation of its response against the schema said.
///
/// A response that does not meet the schema is a transient failure: the model
/// may do better when asked again. `validation` is looked at only where the
/// driver returned a response.
pub fn check_response(
    attempt: LlmRetryResult<ChatCompletionResponse>,
    validation: Result<(), String>,
) -> (r: LlmRetryResult<ChatCompletionResponse>)
    ensures
        r == match attempt {
            LlmRetryResult::Okay { output } => match validation {
                Ok(_) => LlmRetryResult::Okay { output },
                Err(error) => LlmRetryResult::Transient { error },
            },
            _ => attempt,
        },
{
    match attempt {
        LlmRetryResult::Okay { output } => match validation {
            Ok(_) => LlmRetryResult::Okay { output },
            Err(error) => LlmRetryResult::Transient { error },
        },
        LlmRetryResult::Transient { error } => LlmRetryResult::Transient { error },
        LlmRetryResult::Fatal { error } => LlmRetryResult::Fatal { error },
    }
}

/// Whether the `jsonschema` crate admits a value under a schema: the schema
/// is a JSON Schema and the value meets it.
pub uninterp spec fn schema_admits(schema: JsonView, value: JsonView) -> bool;

/// Compiles `schema` with `jsonschema::validator_for` and holds `value`
/// against it with `Validator::validate`; an error of either is handed back
/// as its text. No reference of the schema is fetched, so whether there is an
/// error is a function of the two values alone. Nothing is claimed of the
/// text: which of several violations is named is up to the crate.
#[verifier::external_body]
fn first_schema_fault(schema: &Json, value: &Json) -> (fault: Option<String>)
    requires
        crate::json::well_written(schema@),
        crate::json::well_written(value@),
    ensures
        fault.is_none() == schema_admits(schema@, value@),
{
    let instance = crate::json::to_serde_value(value);
    match jsonschema::validator_for(&crate::json::to_serde_value(schema)) {
        Ok(validator) => validator.validate(&instance).err().map(|err| err.to_string()),
        Err(err) => Some(err.to_string()),
    }
}

/// The complaint about a response that does not meet the schema: the response
/// as JSON text, and what is wrong with it.
pub open spec fn validation_failure(response: JsonView, fault: Seq<char>) -> Seq<char> {
    "Failed to validate "@ + crate::json::compact_json(response) + ": "@ + fault
}

/// Hold the response of an attempt against the schema of the prompt.
///
/// A response that the schema admits stays a success. Any other is a
/// transient failure, whose error names the response and what is wrong with
/// it: the model may do better when asked again. An attempt that failed stays
/// as it is.
pub fn validate_response(schema: &Json, attempt: LlmRetryResult<ChatCompletionResponse>) -> (r:
    LlmRetryResult<ChatCompletionResponse>)
    ensures
        match attempt {
            LlmRetryResult::Okay { output } => if schema_admits(
                crate::json::written(schema@),
                crate::json::written(output.response@),
            ) {
                r == attempt
            } else {
                r matches LlmRetryResult::Transient { error } && exists|fault: Seq<char>|
                    error@ == #[trigger] validation_failure(output.response@, fault)
            },
            _ => r == attempt,
        },
{
    let validation = match &attempt {
        LlmRetryResult::Okay { output } => match first_schema_fault(
            &schema.written_copy(),
            &output.response.written_copy(),
        ) {
            Some(fault) => {
                let mut error = String::from_str("Failed to validate ");
                error.append(output.response.to_json_string().as_str());
                error.append(": ");
                error.append(fault.as_str());
                assert(error@ == validation_failure(output.response@, fault@));
                Err(error)
            },
            None => Ok(()),
        },
        _ => Ok(()),
    };
    check_response(attempt, validation)
}

/// Retry accounting. Let the attempts of a request report `k` transient
/// errors and then a last result, with `k` no more than the number of
/// re-attempts. Where the last result is a success, the output record has the
/// status `Okay` and `k` errors. Where it is one more transient error and `k`
/// is the number of re-attempts, the record has the status `Failed` and
/// `k + 1` errors.
pub proof fn lemma_retry_accounting<T>(re_attempts: nat, results: Seq<LlmRetryResult<T>>)
    requires
        results.len() >= 1,
        results.len() - 1 <= re_attempts,
        forall|i: int| 0 <= i < results.len() - 1 ==> (#[trigger] results[i]) is Transient,
        results.last() is Okay || (results.last() is Transient && results.len() - 1
            == re_attempts),
    ensures
        resolve_spec(re_attempts, Seq::empty(), results) is Some,
        results.last() is Okay ==> outcome_status(
            resolve_spec(re_attempts, Seq::empty(), results)->Some_0,
        ) == WorkStatus::Okay && resolve_spec(
            re_attempts,
            Seq::empty(),
            results,
        )->Some_0.errors().len() == results.len() - 1,
        results.last() is Transient ==> outcome_status(
            resolve_spec(re_attempts, Seq::empty(), results)->Some_0,
        ) == WorkStatus::Failed && resolve_spec(
            re_attempts,
            Seq::empty(),
            results,
        )->Some_0.errors().len() == re_attempts + 1,
{
    if results.last() is Okay {
        lemma_transients_then_ok(re_attempts, Seq::empty(), results);
    } else {
        assert forall|i: int| 0 <= i < results.len() implies (#[trigger] results[i]) is Transient by {
            if i == results.len() - 1 {
                assert(results[i] == results.last());
            }
        }
        lemma_transients_exhaust(re_attempts, Seq::empty(), results);
    }
}

} // verus!
