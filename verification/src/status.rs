use vstd::prelude::*;

use crate::models::{HealthResponse, ProviderStatus};
use crate::text::{concat3, decimal, fmt_u64};

verus! {

/// The overall status: healthy when both the cache and Trello answer.
pub open spec fn health_text(redis_ok: bool, trello_ok: bool) -> Seq<char> {
    if redis_ok && trello_ok {
        "healthy"@
    } else {
        "degraded"@
    }
}

/// Builds the health report from the providers' and services' availability.
pub fn health_response(ai_providers: Vec<ProviderStatus>, redis_ok: bool, trello_ok: bool) -> (r: HealthResponse)
    ensures
        r.status@ == health_text(redis_ok, trello_ok),
        r.ai_providers@ == ai_providers@,
        r.redis == redis_ok,
        r.trello == trello_ok,
{
    let status = if redis_ok && trello_ok {
        String::from_str("healthy")
    } else {
        String::from_str("degraded")
    };
    HealthResponse { status, ai_providers, redis: redis_ok, trello: trello_ok }
}

/// How a chat answer was produced, with its time in milliseconds.
pub open spec fn provider_text(analysed: bool, keyword_only: bool, elapsed_ms: nat) -> Seq<char> {
    let t = "("@ + decimal(elapsed_ms) + "ms)"@;
    if analysed {
        "ai+analysis "@ + t
    } else if keyword_only {
        "keyword "@ + t
    } else {
        "ai+local "@ + t
    }
}

/// Describes how a chat answer was produced: with an AI analysis, from the
/// keyword fallback (no intent), or from an AI-parsed query run locally.
pub fn provider_label(analysed: bool, keyword_only: bool, elapsed_ms: u64) -> (r: String)
    ensures
        r@ == provider_text(analysed, keyword_only, elapsed_ms as nat),
{
    let ms = fmt_u64(elapsed_ms);
    let t = concat3("(", ms.as_str(), "ms)");
    let lead = if analysed {
        "ai+analysis "
    } else if keyword_only {
        "keyword "
    } else {
        "ai+local "
    };
    let r = crate::text::concat2(lead, t.as_str());
    r
}

} // verus!
