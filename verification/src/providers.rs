use vstd::prelude::*;

use crate::config::Config;

verus! {

/// How to reach one OpenAI-compatible chat endpoint.
pub struct ProviderSettings {
    pub base_url: String,
    pub api_key: String,
    pub model: String,
}

/// The AI providers the service asks, in order: a single OpenAI-compatible
/// endpoint, with the base URL, key and model of the settings.
pub fn create_providers(config: &Config) -> (r: Vec<ProviderSettings>)
    ensures
        r.len() == 1,
        r[0].base_url@ == config.ai_base_url@,
        r[0].api_key@ == config.ai_api_key@,
        r[0].model@ == config.ai_model@,
{
    let provider = ProviderSettings {
        base_url: config.ai_base_url.clone(),
        api_key: config.ai_api_key.clone(),
        model: config.ai_model.clone(),
    };
    let mut r: Vec<ProviderSettings> = Vec::new();
    r.push(provider);
    r
}

} // verus!
