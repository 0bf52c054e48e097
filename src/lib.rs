//! Locates prompt literals (strings handed to a language model) in source
//! code, with the exact byte spans of each literal and of its interpolated
//! expressions.
//!
//! The recognition engine works on a plain, closed model of each grammar's
//! syntax tree: the comments of a file and the visited nodes in document
//! pre-order. A front end (outside this library) parses the source and hands
//! that model over.
pub mod comment;
pub mod cursor;
pub mod grammar;
pub mod laws;
pub mod outcome;
pub mod py;
pub mod scope;
pub mod shape;
pub mod text;
pub mod ts;
pub mod types;
pub mod walk;

pub use comment::parse_comment;
pub use py::parse_prompts_py;
pub use ts::parse_prompts_ts;
pub use types::{
    ParseResult, ParseResultError, ParseResultErrorStateError, ParseResultSuccess,
    ParseResultSuccessStateSuccess, Prompt, PromptVar, Span, SpanShape,
};
