//! The data model for completion candidates.
//!
//! Every protocol field that may be absent is an explicit `Option`, and the
//! plain-vs-markup distinction is a tagged variant type, so that the
//! normalization logic is exhaustive and checked.

use vstd::prelude::*;

verus! {

/// How rich documentation content is to be interpreted.
#[derive(Clone, Copy, PartialEq, Eq, Structural)]
pub enum MarkupKind {
    PlainText,
    Markdown,
}

/// Rich documentation content together with its interpretation tag.
#[derive(Clone)]
pub struct MarkupContent {
    pub kind: MarkupKind,
    pub value: String,
}

/// A candidate's documentation: either a bare string or tagged rich content.
#[derive(Clone)]
pub enum Documentation {
    Plain(String),
    Markup(MarkupContent),
}

/// Whether the insertion payload is literal text or a template with
/// placeholders that the editor expands interactively.
#[derive(Clone, Copy, PartialEq, Eq, Structural)]
pub enum InsertTextFormat {
    PlainText,
    Snippet,
}

/// The categorical tag of a candidate, used only for display annotation.
#[derive(Clone, Copy, PartialEq, Eq, Structural)]
pub enum CompletionItemKind {
    Text,
    Method,
    Function,
    Constructor,
    Field,
    Variable,
    Class,
    Interface,
    Module,
    Property,
    Unit,
    Value,
    Enum,
    Keyword,
    Snippet,
    Color,
    File,
    Reference,
    Folder,
    EnumMember,
    Constant,
    Struct,
    Event,
    Operator,
    TypeParameter,
}

/// One suggested insertable symbol, as received from the analysis service.
#[derive(Clone)]
pub struct CompletionItem {
    /// Display text; also the fallback insertion text.
    pub label: String,
    /// Optional categorical tag.
    pub kind: Option<CompletionItemKind>,
    /// Optional short single-line description.
    pub detail: Option<String>,
    /// Optional documentation body.
    pub documentation: Option<Documentation>,
    /// Optional insertion payload; falls back to `label` when absent.
    pub insert_text: Option<String>,
    /// Optional tag distinguishing literal from template insertion.
    pub insert_text_format: Option<InsertTextFormat>,
}

/// The wrapped list form of a response.
#[derive(Clone)]
pub struct CompletionList {
    pub is_incomplete: bool,
    pub items: Vec<CompletionItem>,
}

/// A response is either a flat candidate sequence or a wrapped list; the two
/// are semantically equivalent.
#[derive(Clone)]
pub enum CompletionResponse {
    Array(Vec<CompletionItem>),
    List(CompletionList),
}

impl CompletionResponse {
    /// The ordered candidate sequence, whichever form carried it.
    pub open spec fn spec_items(self) -> Seq<CompletionItem> {
        match self {
            CompletionResponse::Array(items) => items@,
            CompletionResponse::List(list) => list.items@,
        }
    }

    /// Unwraps either response form to the one ordered candidate sequence.
    pub fn into_items(self) -> (items: Vec<CompletionItem>)
        ensures
            items@ == self.spec_items(),
    {
        match self {
            CompletionResponse::Array(items) => items,
            CompletionResponse::List(list) => list.items,
        }
    }
}

} // verus!
