//! Miscellaneous commands: the status report.
use vstd::prelude::*;

use crate::json::{entries_view, lemma_entries_view, lemma_object_view, Json, JsonValue};
use crate::text::owned;

verus! {

/// The status report: without credentials, unauthenticated; with them,
/// once the API accepted them, operational.
pub open spec fn status_report_spec(has_credentials: bool) -> Json {
    if has_credentials {
        Json::Object(seq![("message"@, Json::Str("API is operational"@)), ("status"@, Json::Str("ok"@))])
    } else {
        Json::Object(
            seq![("message"@, Json::Str("no credentials configured"@)), ("status"@, Json::Str("unauthenticated"@))],
        )
    }
}

/// Builds the status report; `has_credentials` says whether a bearer
/// token or API keys are configured (and, when they are, were validated).
pub fn status_report(has_credentials: bool) -> (r: JsonValue)
    ensures
        r@ == status_report_spec(has_credentials),
{
    let mut e: Vec<(String, JsonValue)> = Vec::new();
    if has_credentials {
        e.push((owned("message"), JsonValue::String(owned("API is operational"))));
        e.push((owned("status"), JsonValue::String(owned("ok"))));
    } else {
        e.push((owned("message"), JsonValue::String(owned("no credentials configured"))));
        e.push((owned("status"), JsonValue::String(owned("unauthenticated"))));
    }
    proof {
        lemma_entries_view(e@);
        lemma_object_view(e);
    }
    assert(entries_view(e@) =~= status_report_spec(has_credentials)->Object_0);
    JsonValue::Object(e)
}

} // verus!
