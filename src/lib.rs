//! Commit-message and pull-request text generation against a chat model:
//! bounded-concurrency dispatch of per-file requests, decoding of streamed
//! replies, and the prompt and wire formats around them.

pub mod change;
pub mod cli_args;
pub mod config;
pub mod dispatch;
pub mod error;
pub mod git;
pub mod json;
pub mod llm;
pub mod menu;
pub mod prompt_builder;
pub mod prompts;
pub mod stream;
pub mod text;
pub mod transport;
