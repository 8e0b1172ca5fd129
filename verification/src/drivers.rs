//! What every LLM driver shares: options, token accounting and the error that
//! wraps a vendor's own.

use vstd::prelude::*;
use crate::json::Json;
use crate::rate_limit::RateLimit;
use crate::retry::IsKnownTransient;

pub mod bedrock;
pub mod echo;
pub mod native;
pub mod openai;
pub mod vertex;



verus! {

/// Our different driver types.
#[derive(Debug, Clone, Copy, PartialEq, Eq, Structural)]
pub enum DriverType {
    /// OpenAI driver (also for LiteLLM, Ollama, etc).
    OpenAI,
    /// AWS Bedrock driver.
    Bedrock,
    /// Attempt to use a native driver for each specific AI.
    Native,
    /// Vertex driver.
    Vertex,
}

impl Default for DriverType {
    fn default() -> (d: DriverType)
        ensures
            d == DriverType::OpenAI,
    {
        DriverType::OpenAI
    }
}

/// A sampling parameter, carried as the bits of the single-precision float
/// that the caller gave. The library hands it on and never computes with it.
#[derive(Debug, Clone, Copy, PartialEq, Eq, Structural)]
pub struct SamplingValue {
    /// The IEEE-754 bits of the value.
    pub bits: u32,
}

/// Our chat-related options.
#[derive(Debug, Clone, Copy)]
pub struct LlmOpts {
    /// The LLM driver to use.
    pub driver: DriverType,
    /// An upper limit on the number of completion tokens to generate.
    pub max_completion_tokens: Option<u32>,
    /// The temperature to use for sampling.
    pub temperature: Option<SamplingValue>,
    /// The top-p sampling value to use.
    pub top_p: Option<SamplingValue>,
    /// A timeout, in seconds, for the LLM to return a complete response.
    pub timeout: Option<u64>,
    /// A rate limit for LLM API requests.
    pub rate_limit: Option<RateLimit>,
}

/// A chat completion response.
#[derive(Debug)]
pub struct ChatCompletionResponse {
    /// Structured response from the LLM. This will not have been validated
    /// yet.
    pub response: Json,
    /// Token usage.
    pub token_usage: Option<TokenUsage>,
}

/// An amount of money in picodollars: millionths of a millionth of a US
/// dollar.
#[derive(Debug, Clone, Copy, PartialEq, Eq, Structural)]
pub struct Cost {
    /// The amount.
    pub picodollars: u64,
}

/// What a model charges per token, in picodollars.
#[derive(Debug, Clone, Copy, PartialEq, Eq, Structural)]
pub struct TokenPricing {
    /// The price of one prompt token.
    pub input_cost_per_token: u64,
    /// The price of one completion token.
    pub output_cost_per_token: u64,
}

/// Token usage.
#[derive(Debug, Clone, Copy, PartialEq, Eq, Structural)]
pub struct TokenUsage {
    /// How many tokens were used in the prompt?
    pub prompt_tokens: u64,
    /// How many tokens were used in the response?
    pub completion_tokens: u64,
}

impl Default for TokenUsage {
    fn default() -> (u: TokenUsage)
        ensures
            u == (TokenUsage { prompt_tokens: 0, completion_tokens: 0 }),
    {
        TokenUsage { prompt_tokens: 0, completion_tokens: 0 }
    }
}

impl TokenUsage {
    /// Whether no token was used.
    pub open spec fn zero(&self) -> bool {
        self.prompt_tokens == 0 && self.completion_tokens == 0
    }

    /// Was our token usage zero?
    pub fn is_zero(&self) -> (b: bool)
        ensures
            b == self.zero(),
    {
        self.prompt_tokens == 0 && self.completion_tokens == 0
    }

    /// What this usage costs at `pricing`, in picodollars.
    pub open spec fn cost_at(&self, pricing: TokenPricing) -> int {
        self.prompt_tokens * pricing.input_cost_per_token + self.completion_tokens
            * pricing.output_cost_per_token
    }

    /// The estimate that `estimate_cost` gives: none without a pricing, and
    /// none where the amount does not fit 64 bits.
    pub open spec fn estimate_cost_spec(&self, pricing: Option<TokenPricing>) -> Option<Cost> {
        match pricing {
            Some(p) => if self.cost_at(p) <= u64::MAX {
                Some(Cost { picodollars: self.cost_at(p) as u64 })
            } else {
                None
            },
            None => None,
        }
    }

    /// Estimate the cost of this token usage.
    pub fn estimate_cost(&self, pricing: Option<&TokenPricing>) -> (cost: Option<Cost>)
        ensures
            cost == self.estimate_cost_spec(
                match pricing {
                    Some(p) => Some(*p),
                    None => None,
                },
            ),
    {
        match pricing {
            Some(p) => {
                assert(self.prompt_tokens * p.input_cost_per_token <= u64::MAX * u64::MAX)
                    by (nonlinear_arith)
                    requires
                        self.prompt_tokens <= u64::MAX,
                        p.input_cost_per_token <= u64::MAX,
                ;
                assert(self.completion_tokens * p.output_cost_per_token <= u64::MAX * u64::MAX)
                    by (nonlinear_arith)
                    requires
                        self.completion_tokens <= u64::MAX,
                        p.output_cost_per_token <= u64::MAX,
                ;
                assert(0xffff_ffff_ffff_ffff * 0xffff_ffff_ffff_ffff
                    <= 0xffff_ffff_ffff_ffff_ffff_ffff_ffff_ffff) by (nonlinear_arith);
                let input: u128 = self.prompt_tokens as u128 * p.input_cost_per_token as u128;
                let output: u128 = self.completion_tokens as u128 * p.output_cost_per_token as u128;
                if input > u64::MAX as u128 || output > u64::MAX as u128 {
                    return None;
                }
                let total: u128 = input + output;
                if total <= u64::MAX as u128 {
                    Some(Cost { picodollars: total as u64 })
                } else {
                    None
                }
            },
            None => None,
        }
    }

    /// The sum of two usages, field by field.
    pub open spec fn plus(self, other: TokenUsage) -> (int, int) {
        (
            self.prompt_tokens + other.prompt_tokens,
            self.completion_tokens + other.completion_tokens,
        )
    }

    /// Whether the sum of two usages fits the counters.
    pub open spec fn can_add(self, other: TokenUsage) -> bool {
        self.prompt_tokens + other.prompt_tokens <= u64::MAX && self.completion_tokens
            + other.completion_tokens <= u64::MAX
    }

    /// Add `other` to this usage.
    pub fn add_assign(&mut self, other: TokenUsage)
        requires
            old(self).can_add(other),
        ensures
            final(self).prompt_tokens == old(self).prompt_tokens + other.prompt_tokens,
            final(self).completion_tokens == old(self).completion_tokens
                + other.completion_tokens,
    {
        self.prompt_tokens = self.prompt_tokens + other.prompt_tokens;
        self.completion_tokens = self.completion_tokens + other.completion_tokens;
    }

    /// Add `other` to this usage where the sum fits; otherwise leave this
    /// usage as it is and return `false`.
    pub fn checked_add_assign(&mut self, other: TokenUsage) -> (added: bool)
        ensures
            added == old(self).can_add(other),
            added ==> final(self).prompt_tokens == old(self).prompt_tokens + other.prompt_tokens
                && final(self).completion_tokens == old(self).completion_tokens
                + other.completion_tokens,
            !added ==> *final(self) == *old(self),
    {
        if self.prompt_tokens <= u64::MAX - other.prompt_tokens && self.completion_tokens
            <= u64::MAX - other.completion_tokens {
            self.add_assign(other);
            true
        } else {
            false
        }
    }
}

/// A token count that a vendor reports as a signed number: a negative count
/// is taken as zero.
pub open spec fn token_count(count: i32) -> u64 {
    if count < 0 {
        0
    } else {
        count as u64
    }
}

/// Convert a token count that a vendor reports as a signed number: a negative
/// count is taken as zero.
pub fn token_count_from_i32(count: i32) -> (n: u64)
    ensures
        n == token_count(count),
        n == (if count < 0 { 0 } else { count as int }),
{
    if count < 0 {
        0
    } else {
        count as u64
    }
}

/// An error which occurred while calling an LLM.
#[derive(Debug)]
pub enum LlmError<E> {
    /// A native error.
    Native(E),
    /// A timeout error.
    Timeout,
}

impl<E: IsKnownTransient> IsKnownTransient for LlmError<E> {
    /// A timeout is transient: a runaway response or a slow network may do
    /// better on another attempt. A native error decides for itself.
    open spec fn known_transient(&self) -> bool {
        match self {
            LlmError::Native(err) => err.known_transient(),
            LlmError::Timeout => true,
        }
    }

    fn is_known_transient(&self) -> (b: bool) {
        match self {
            LlmError::Native(err) => err.is_known_transient(),
            LlmError::Timeout => true,
        }
    }
}

/// Wrap the result of a vendor call that ran under a timeout: `None` stands
/// for a call that did not finish in time.
pub fn apply_timeout<T, E>(finished: Option<Result<T, E>>) -> (r: Result<T, LlmError<E>>)
    ensures
        r == match finished {
            Some(Ok(value)) => Ok::<T, LlmError<E>>(value),
            Some(Err(err)) => Err(LlmError::Native(err)),
            None => Err(LlmError::Timeout),
        },
{
    match finished {
        Some(Ok(value)) => Ok(value),
        Some(Err(err)) => Err(LlmError::Native(err)),
        None => Err(LlmError::Timeout),
    }
}

} // verus!
