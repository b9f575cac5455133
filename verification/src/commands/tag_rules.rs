//! Tag rule commands: the sources a listing can be narrowed to.
use vstd::prelude::*;

use crate::text::{owned, push_text, text_eq};

verus! {

/// The telemetry a tag rule applies to.
#[derive(PartialEq, Eq, Structural, Clone, Copy, Debug)]
pub enum TagRuleSource {
    Logs,
    Spans,
    Metrics,
    Rum,
    Feed,
}

/// The source that a `--filter-source` value names, or the error shown.
pub open spec fn tag_rule_source_spec(s: Seq<char>) -> Result<TagRuleSource, Seq<char>> {
    if s == "logs"@ {
        Ok(TagRuleSource::Logs)
    } else if s == "spans"@ {
        Ok(TagRuleSource::Spans)
    } else if s == "metrics"@ {
        Ok(TagRuleSource::Metrics)
    } else if s == "rum"@ {
        Ok(TagRuleSource::Rum)
    } else if s == "feed"@ {
        Ok(TagRuleSource::Feed)
    } else {
        Err("unknown source '"@ + s + "'; valid values: logs, spans, metrics, rum, feed"@)
    }
}

/// Parses the `--filter-source` value of a tag rule listing.
pub fn parse_tag_rule_source(s: &str) -> (r: Result<TagRuleSource, String>)
    ensures
        match r {
            Ok(x) => tag_rule_source_spec(s@) == Ok::<TagRuleSource, Seq<char>>(x),
            Err(e) => tag_rule_source_spec(s@) == Err::<TagRuleSource, Seq<char>>(e@),
        },
{
    if text_eq(s, "logs") {
        Ok(TagRuleSource::Logs)
    } else if text_eq(s, "spans") {
        Ok(TagRuleSource::Spans)
    } else if text_eq(s, "metrics") {
        Ok(TagRuleSource::Metrics)
    } else if text_eq(s, "rum") {
        Ok(TagRuleSource::Rum)
    } else if text_eq(s, "feed") {
        Ok(TagRuleSource::Feed)
    } else {
        let mut e = owned("unknown source '");
        push_text(&mut e, s);
        push_text(&mut e, "'; valid values: logs, spans, metrics, rum, feed");
        Err(e)
    }
}

} // verus!
