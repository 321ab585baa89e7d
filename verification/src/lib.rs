//! Tool-call parsing, response shaping and trace bookkeeping for language-model output.

pub mod base_json_parser;
pub mod capture;
pub mod config;
pub mod delta;
pub mod finish_metadata;
pub mod frames;
pub mod json;
pub mod json_calls;
pub mod json_repair;
pub mod nvext;
pub mod protocol;
pub mod response;
pub mod structural_tag;
pub mod text;
pub mod tool_events;
pub mod trace;
pub mod tracker;
