//! The values the engine produces: spans, prompts and the parse outcome.
use vstd::prelude::*;

verus! {

/// A half-open range `[start, end)` of byte offsets into a source text.
#[derive(Clone, Copy, Debug, PartialEq, Eq)]
pub struct Span {
    pub start: u32,
    pub end: u32,
}

/// The span of a delimited construct with its delimiters (`outer`) and
/// without them (`inner`).
#[derive(Clone, Copy, Debug, PartialEq, Eq)]
pub struct SpanShape {
    pub outer: Span,
    pub inner: Span,
}

/// An expression interpolated into a prompt literal.
#[derive(Clone, Debug, PartialEq)]
pub struct PromptVar {
    /// The source text at `span.outer`.
    pub exp: String,
    pub span: SpanShape,
}

/// A recognized prompt literal.
#[derive(Clone, Debug, PartialEq)]
pub struct Prompt {
    /// The source file the literal was found in.
    pub file: String,
    pub span: SpanShape,
    /// The source text at `span.outer`.
    pub exp: String,
    /// The interpolated expressions, in source order.
    pub vars: Vec<PromptVar>,
}

/// The marker of a failed parse.
#[derive(Clone, Copy, Debug, PartialEq, Eq)]
pub struct ParseResultErrorStateError;

/// The marker of a successful parse.
#[derive(Clone, Copy, Debug, PartialEq, Eq)]
pub struct ParseResultSuccessStateSuccess;

/// A source file that the front end could not parse.
#[derive(Clone, Debug, PartialEq)]
pub struct ParseResultError {
    pub state: ParseResultErrorStateError,
    pub error: String,
}

/// The prompts of a source file that parsed.
#[derive(Clone, Debug, PartialEq)]
pub struct ParseResultSuccess {
    pub state: ParseResultSuccessStateSuccess,
    pub prompts: Vec<Prompt>,
}

/// The outcome of analysing one source file.
#[derive(Clone, Debug, PartialEq)]
pub enum ParseResult {
    ParseResultError(ParseResultError),
    ParseResultSuccess(ParseResultSuccess),
}

/// The mathematical value of a [`PromptVar`].
pub struct PromptVarView {
    pub exp: Seq<char>,
    pub span: SpanShape,
}

/// The mathematical value of a [`Prompt`].
pub struct PromptView {
    pub file: Seq<char>,
    pub span: SpanShape,
    pub exp: Seq<char>,
    pub vars: Seq<PromptVarView>,
}

impl View for PromptVar {
    type V = PromptVarView;

    open spec fn view(&self) -> PromptVarView {
        PromptVarView { exp: self.exp@, span: self.span }
    }
}

impl View for Prompt {
    type V = PromptView;

    open spec fn view(&self) -> PromptView {
        PromptView {
            file: self.file@,
            span: self.span,
            exp: self.exp@,
            vars: self.vars@.map_values(|v: PromptVar| v@),
        }
    }
}

/// The views of a sequence of prompts.
pub open spec fn prompts_view(ps: Seq<Prompt>) -> Seq<PromptView> {
    ps.map_values(|p: Prompt| p@)
}

} // verus!
