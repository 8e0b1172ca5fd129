//! The answers of a LiteLLM gateway, as far as the core reads them.

use vstd::prelude::*;
use crate::drivers::TokenPricing;
use crate::text::str_to_chars;

verus! {

/// LiteLLM error response.
#[derive(Debug)]
pub struct LiteLlmErrorResponse {
    /// The error detail.
    pub detail: LiteLlmErrorResponseDetail,
}

/// LiteLLM error response detail.
#[derive(Debug)]
pub struct LiteLlmErrorResponseDetail {
    /// The error code.
    pub error: String,
}

/// LiteLLM success response.
#[derive(Debug)]
pub struct LiteLlmResponse<T> {
    /// The response data.
    pub data: T,
}

/// What the core keeps of the information on a model.
#[derive(Debug)]
pub struct LiteLlmModel {
    /// The model name.
    pub model_name: String,
    /// The provider. Useful for ironing out minor parameter differences.
    pub litellm_provider: String,
    /// What the model charges per token.
    pub pricing: TokenPricing,
}

/// The URL of the endpoint that lists the models: `model/info` below the base
/// URL of the API.
pub open spec fn model_info_url_spec(api_base: Seq<char>) -> Seq<char> {
    if api_base.len() > 0 && api_base.last() == '/' {
        api_base + "model/info"@
    } else {
        api_base.push('/') + "model/info"@
    }
}

/// Build the URL of the endpoint that lists the models.
pub fn model_info_url(api_base: &str) -> (url: String)
    ensures
        url@ == model_info_url_spec(api_base@),
{
    let chars = str_to_chars(api_base);
    let mut url = String::from_str(api_base);
    if !(chars.len() > 0 && chars[chars.len() - 1] == '/') {
        url.push('/');
    }
    url.append("model/info");
    url
}

/// The index of the first model named `model_name`, or the number of models
/// where there is none.
pub fn find_model(models: &Vec<LiteLlmModel>, model_name: &str) -> (index: usize)
    ensures
        index <= models@.len(),
        index < models@.len() ==> models@[index as int].model_name@ == model_name@,
        forall|k: int| 0 <= k < index ==> (#[trigger] models@[k]).model_name@ != model_name@,
{
    let mut i: usize = 0;
    while i < models.len() && !crate::text::str_eq(models[i].model_name.as_str(), model_name)
        invariant
            i <= models@.len(),
            forall|k: int| 0 <= k < i ==> (#[trigger] models@[k]).model_name@ != model_name@,
        decreases models.len() - i,
    {
        i += 1;
    }
    i
}

} // verus!
