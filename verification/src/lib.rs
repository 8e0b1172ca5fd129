//! Verified core of a batch pipeline for structured LLM requests: bounded work
//! scheduling, retry provenance, page planning and result aggregation.

pub mod size_hint;
pub mod text;
pub mod rate_limit;
pub mod json;
pub mod retry;
pub mod drivers;
pub mod queues;
pub mod data_url;
pub mod page_iter;
pub mod schema;
pub mod prompt;
pub mod blocking_iter_streams;
pub mod cmd;
pub mod io;
pub mod litellm;
pub mod toml_utils;
pub mod ui;
pub mod tiff;
