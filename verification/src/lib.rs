//! Conformance harness core for known-answer-test vector files: the text
//! codecs, the block reader, the scheme registry and the scheduler's
//! decision logic, each with a proved contract.

pub mod config;
pub mod encode;
pub mod error;
pub mod laws;
pub mod reader;
pub mod registry;
pub mod scheduler;
pub mod text;
pub mod vector;
