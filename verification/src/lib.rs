//! A verified core for a notes assistant that delegates natural-language
//! requests to a hosted chat model and routes the model's replies through a
//! structured tool-calling loop: JSON extraction, call validation, user
//! confirmation, dispatch against a tool registry, bounded conversation
//! memory, and continuation detection.

pub mod calls;
pub mod chain;
pub mod confirm;
pub mod detector;
pub mod executor;
pub mod errors;
pub mod extractor;
pub mod memory;
pub mod models;
pub mod notes;
pub mod prompts;
pub mod registry;
pub mod schema;
pub mod shims;
pub mod textutil;
pub mod tools;
