//! Verified core of the Orchustr orchestration toolkit: prompt templates,
//! JSON state handling for the language bridges, document chunking and
//! checkpoint bookkeeping.

pub mod anchor;
pub mod bridge;
pub mod builders;
pub mod checkpoint;
pub mod json;
pub mod prompt;
pub mod text;
pub mod tools;
