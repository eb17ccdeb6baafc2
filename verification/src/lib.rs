//! A configurable text-pattern linter: declarative rules are compiled into
//! matchers, files are tested against each rule's scope, matches are turned
//! into line numbers, and the violations found are reported under a severity
//! policy.

pub mod config;
pub mod globs;
pub mod line_laws;
pub mod listing;
pub mod matcher;
pub mod pattern;
pub mod policy;
pub mod render;
pub mod report;
pub mod rules;
pub mod scan;
pub mod text;
