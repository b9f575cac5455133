//! The pure parts of the commands: argument parsing and validation, request
//! bodies, and filtering of responses.
pub mod llm_obs;
pub mod logs;
pub mod misc;
pub mod monitors;
pub mod on_call;
pub mod organizations;
pub mod profiling;
pub mod rum;
pub mod security;
pub mod skills_remote;
pub mod software_catalog;
pub mod symdb;
pub mod tag_rules;
pub mod traces;
pub mod users;
pub mod workflows;
