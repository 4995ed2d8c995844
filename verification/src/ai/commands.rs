//! Which AI provider keys are configured, and where a key is kept.

use crate::text::{push_str, str_eq};
use vstd::prelude::*;

verus! {

#[derive(Debug, Clone, Copy, PartialEq, Eq, Structural)]
pub struct ApiKeyStatus {
    pub has_anthropic: bool,
    pub has_openai: bool,
}

/// The environment variable holding a provider's key: `anthropic` and
/// `openai` are known, any other provider is refused.
pub open spec fn api_key_variable_spec(provider: Seq<char>) -> Result<Seq<char>, Seq<char>> {
    if provider == "anthropic"@ {
        Ok("ANTHROPIC_API_KEY"@)
    } else if provider == "openai"@ {
        Ok("OPENAI_API_KEY"@)
    } else {
        Err("Unknown provider: "@ + provider)
    }
}

pub open spec fn result_view(r: Result<String, String>) -> Result<Seq<char>, Seq<char>> {
    match r {
        Ok(s) => Ok(s@),
        Err(e) => Err(e@),
    }
}

pub fn api_key_variable(provider: &str) -> (r: Result<String, String>)
    ensures
        result_view(r) == api_key_variable_spec(provider@),
{
    if str_eq(provider, "anthropic") {
        Ok("ANTHROPIC_API_KEY".to_string())
    } else if str_eq(provider, "openai") {
        Ok("OPENAI_API_KEY".to_string())
    } else {
        let mut m = String::new();
        push_str(&mut m, "Unknown provider: ");
        push_str(&mut m, provider);
        Err(m)
    }
}

/// The status from whether each variable is set.
pub fn api_key_status(anthropic_set: bool, openai_set: bool) -> (s: ApiKeyStatus)
    ensures
        s.has_anthropic == anthropic_set,
        s.has_openai == openai_set,
{
    ApiKeyStatus { has_anthropic: anthropic_set, has_openai: openai_set }
}

} // verus!
