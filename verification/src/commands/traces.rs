//! Traces (spans) commands: sort validation and `--compute` parsing.
use vstd::prelude::*;

use crate::commands::rum::{parse_compute_spec, parse_rum_compute};
use crate::text::{debug_quoted, debug_text, decimal_int, i64_decimal, owned, push_text};

verus! {

/// Checks the `--sort` value of a spans search: `timestamp` (ascending) or
/// `-timestamp` (descending).
pub fn validate_sort(sort: &str) -> (r: Result<(), String>)
    ensures
        match r {
            Ok(()) => sort@ == "timestamp"@ || sort@ == "-timestamp"@,
            Err(e) => !(sort@ == "timestamp"@ || sort@ == "-timestamp"@) && e@ == "invalid --sort value: "@
                + debug_text(sort@) + "\nExpected: timestamp (ascending) or -timestamp (descending)"@,
        },
{
    if crate::text::text_eq(sort, "timestamp") || crate::text::text_eq(sort, "-timestamp") {
        Ok(())
    } else {
        let mut e = owned("invalid --sort value: ");
        let d = debug_quoted(sort);
        push_text(&mut e, d.as_str());
        push_text(&mut e, "\nExpected: timestamp (ascending) or -timestamp (descending)");
        Err(e)
    }
}

/// Checks the `--limit` of a spans search: from 1 to 1000.
pub fn validate_limit(limit: i32) -> (r: Result<(), String>)
    ensures
        match r {
            Ok(()) => 1 <= limit <= 1000,
            Err(e) => !(1 <= limit <= 1000) && e@ == "--limit must be between 1 and 1000, got "@
                + decimal_int(limit as int),
        },
{
    if 1 <= limit && limit <= 1000 {
        Ok(())
    } else {
        let mut e = owned("--limit must be between 1 and 1000, got ");
        let d = i64_decimal(limit as i64);
        push_text(&mut e, d.as_str());
        Err(e)
    }
}

/// A spans aggregation function.
#[derive(Clone, Copy, Debug, PartialEq, Eq, Structural)]
pub enum SpansAggregationFunction {
    Count,
    Avg,
    Sum,
    Min,
    Max,
    Median,
    Cardinality,
    Percentile75,
    Percentile90,
    Percentile95,
    Percentile98,
    Percentile99,
}

/// The aggregation function an aggregation name denotes.
pub open spec fn aggregation_function(name: Seq<char>) -> Option<SpansAggregationFunction> {
    if name == "count"@ {
        Some(SpansAggregationFunction::Count)
    } else if name == "avg"@ {
        Some(SpansAggregationFunction::Avg)
    } else if name == "sum"@ {
        Some(SpansAggregationFunction::Sum)
    } else if name == "min"@ {
        Some(SpansAggregationFunction::Min)
    } else if name == "max"@ {
        Some(SpansAggregationFunction::Max)
    } else if name == "median"@ {
        Some(SpansAggregationFunction::Median)
    } else if name == "cardinality"@ {
        Some(SpansAggregationFunction::Cardinality)
    } else if name == "pc75"@ {
        Some(SpansAggregationFunction::Percentile75)
    } else if name == "pc90"@ {
        Some(SpansAggregationFunction::Percentile90)
    } else if name == "pc95"@ {
        Some(SpansAggregationFunction::Percentile95)
    } else if name == "pc98"@ {
        Some(SpansAggregationFunction::Percentile98)
    } else if name == "pc99"@ {
        Some(SpansAggregationFunction::Percentile99)
    } else {
        None
    }
}

/// Parses a `--compute` expression into a spans aggregation function and an
/// optional metric, with the grammar of `parse_rum_compute`.
pub fn parse_compute(input: &str) -> (r: Result<(SpansAggregationFunction, Option<String>), String>)
    ensures
        match (r, parse_compute_spec(input@)) {
            (Ok((f, m)), Ok((name, sm))) => aggregation_function(name) == Some(f) && match (m, sm) {
                (Some(x), Some(y)) => x@ == y,
                (None, None) => true,
                _ => false,
            },
            (Err(e), Ok((name, _))) => aggregation_function(name).is_none() && e@
                == "unknown aggregation function: "@ + name,
            (Err(e), Err(se)) => e@ == se,
            _ => false,
        },
{
    let (func, metric) = match parse_rum_compute(input) {
        Err(e) => return Err(e),
        Ok(p) => p,
    };
    let f = func.as_str();
    let agg = if crate::text::text_eq(f, "count") {
        SpansAggregationFunction::Count
    } else if crate::text::text_eq(f, "avg") {
        SpansAggregationFunction::Avg
    } else if crate::text::text_eq(f, "sum") {
        SpansAggregationFunction::Sum
    } else if crate::text::text_eq(f, "min") {
        SpansAggregationFunction::Min
    } else if crate::text::text_eq(f, "max") {
        SpansAggregationFunction::Max
    } else if crate::text::text_eq(f, "median") {
        SpansAggregationFunction::Median
    } else if crate::text::text_eq(f, "cardinality") {
        SpansAggregationFunction::Cardinality
    } else if crate::text::text_eq(f, "pc75") {
        SpansAggregationFunction::Percentile75
    } else if crate::text::text_eq(f, "pc90") {
        SpansAggregationFunction::Percentile90
    } else if crate::text::text_eq(f, "pc95") {
        SpansAggregationFunction::Percentile95
    } else if crate::text::text_eq(f, "pc98") {
        SpansAggregationFunction::Percentile98
    } else if crate::text::text_eq(f, "pc99") {
        SpansAggregationFunction::Percentile99
    } else {
        let mut e = owned("unknown aggregation function: ");
        push_text(&mut e, f);
        return Err(e);
    };
    Ok((agg, metric))
}

/// The order of a spans search.
#[derive(Clone, Copy, Debug, PartialEq, Eq, Structural)]
pub enum SpansSort {
    TimestampAscending,
    TimestampDescending,
}

/// `timestamp` sorts oldest first; anything else newest first.
pub fn parse_spans_sort(sort: &str) -> (r: SpansSort)
    ensures
        r == if sort@ == "timestamp"@ {
            SpansSort::TimestampAscending
        } else {
            SpansSort::TimestampDescending
        },
{
    if crate::text::text_eq(sort, "timestamp") {
        SpansSort::TimestampAscending
    } else {
        SpansSort::TimestampDescending
    }
}

/// What a spans search sends, once its arguments are checked: the window
/// in milliseconds, the page limit and the order.
#[derive(Clone, Copy, Debug, PartialEq, Eq, Structural)]
pub struct SpansSearchPlan {
    pub from_ms: i64,
    pub to_ms: i64,
    pub limit: i32,
    pub sort: SpansSort,
}

/// The checks of a spans search in the order the command makes them: the
/// sort, then the start and end of the window (their parsers' errors as
/// they are), then the limit.
pub open spec fn search_plan_spec(
    sort: Seq<char>,
    from_ms: Result<i64, Seq<char>>,
    to_ms: Result<i64, Seq<char>>,
    limit: i32,
) -> Result<SpansSearchPlan, Seq<char>> {
    if !(sort == "timestamp"@ || sort == "-timestamp"@) {
        Err("invalid --sort value: "@ + debug_text(sort) + "\nExpected: timestamp (ascending) or -timestamp (descending)"@)
    } else {
        match from_ms {
            Err(e) => Err(e),
            Ok(f) => match to_ms {
                Err(e) => Err(e),
                Ok(t) => if !(1 <= limit <= 1000) {
                    Err("--limit must be between 1 and 1000, got "@ + decimal_int(limit as int))
                } else {
                    Ok(
                        SpansSearchPlan {
                            from_ms: f,
                            to_ms: t,
                            limit,
                            sort: if sort == "timestamp"@ {
                                SpansSort::TimestampAscending
                            } else {
                                SpansSort::TimestampDescending
                            },
                        },
                    )
                },
            },
        }
    }
}

/// The view of a parse outcome.
pub open spec fn ms_view(r: Result<i64, String>) -> Result<i64, Seq<char>> {
    match r {
        Ok(x) => Ok(x),
        Err(e) => Err(e@),
    }
}

/// Checks a spans search's arguments, given the parsed bounds of its window
/// (milliseconds, or the parser's error), and plans the request.
pub fn search_plan(sort: &str, from_ms: Result<i64, String>, to_ms: Result<i64, String>, limit: i32) -> (r:
    Result<SpansSearchPlan, String>)
    ensures
        match r {
            Ok(p) => search_plan_spec(sort@, ms_view(from_ms), ms_view(to_ms), limit) == Ok::<
                SpansSearchPlan,
                Seq<char>,
            >(p),
            Err(e) => search_plan_spec(sort@, ms_view(from_ms), ms_view(to_ms), limit) == Err::<
                SpansSearchPlan,
                Seq<char>,
            >(e@),
        },
{
    match validate_sort(sort) {
        Err(e) => {
            return Err(e);
        },
        Ok(()) => {},
    }
    let f = match from_ms {
        Err(e) => {
            return Err(e);
        },
        Ok(x) => x,
    };
    let t = match to_ms {
        Err(e) => {
            return Err(e);
        },
        Ok(x) => x,
    };
    match validate_limit(limit) {
        Err(e) => {
            return Err(e);
        },
        Ok(()) => {},
    }
    Ok(SpansSearchPlan { from_ms: f, to_ms: t, limit, sort: parse_spans_sort(sort) })
}

} // verus!
