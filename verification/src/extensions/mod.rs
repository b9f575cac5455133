//! Extensions: external `pup-<name>` programs installed beside pup.
pub mod install;
