//! Verified core of the `pup` Datadog command-line client: the JSON model and
//! output formatters, rate-limit reporting, and the argument parsers and
//! response filters used by the commands.
pub mod commands;
pub mod extensions;
pub mod formatter;
pub mod ident;
pub mod json;
pub mod json_text;
pub mod order;
pub mod rate_limit;
pub mod text;
