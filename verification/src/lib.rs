//! Cleaning and chunking of text documents.
//!
//! A document is cleaned by an ordered sequence of passes (embedded images,
//! binary bytes, markup, hard wrapping, whitespace, user patterns), reflowed,
//! and cut into bounded chunks at sentence boundaries. Every function states
//! its result over sequences of characters. Beside that stand the rules that
//! the programs around the library share: the settings of a server and of a
//! model, and the part of a model's answer that is handed on.

pub mod text;
pub mod chunking;
pub mod wrap;
pub mod lines;
pub mod normalize;
pub mod pattern;
pub mod error;
pub mod config;
pub mod cleaner;
pub mod reflow;
pub mod document;
pub mod llm;

pub use cleaner::{CleaningPatterns, CleaningStats, DocumentCleaner};
pub use config::{CleaningConfig, HeaderConfig, ProcessingConfig, ServerConfig};
pub use document::{Document, DocumentMetadata, DocumentProcessor, DocumentStats};
pub use error::SmartFetchError;
pub use llm::{ChatCompletionResponse, ChatMessage, Choice, Usage};
