//! Plain values that stand for the parts of language-server messages which
//! the coordinator reads.
use vstd::prelude::*;

verus! {

/// A position in a document: line and character, both from 0.
#[derive(Clone, Copy, Debug, PartialEq, Eq, Structural)]
pub struct Position {
    pub line: u32,
    pub character: u32,
}

/// A range of a document, from `start` up to `end`.
#[derive(Clone, Copy, Debug, PartialEq, Eq, Structural)]
pub struct Range {
    pub start: Position,
    pub end: Position,
}

/// A range in the document with the address `uri`, whose path part is `path`.
#[derive(Debug, PartialEq, Eq)]
pub struct Location {
    pub uri: String,
    pub path: String,
    pub range: Range,
}

/// A replacement of the text in `range` by `new_text`.
#[derive(Debug, PartialEq, Eq)]
pub struct TextEdit {
    pub range: Range,
    pub new_text: String,
}

/// How the text of an edit is to be read.
#[derive(Clone, Copy, Debug, PartialEq, Eq, Structural)]
pub enum InsertTextFormat {
    PlainText,
    Snippet,
}

/// The edit that a completion item carries.
#[derive(Debug, PartialEq, Eq)]
pub enum CompletionTextEdit {
    Edit(TextEdit),
    InsertAndReplace,
}

/// What the coordinator reads of a completion item. `kind` is the name of the
/// item's kind.
#[derive(Debug, PartialEq, Eq)]
pub struct CompletionItem {
    pub label: String,
    pub filter_text: Option<String>,
    pub deprecated: Option<bool>,
    pub kind: Option<String>,
    pub detail: Option<String>,
    pub insert_text_format: Option<InsertTextFormat>,
    pub text_edit: Option<CompletionTextEdit>,
}

/// A code lens, as the server sent it.
#[derive(Debug, PartialEq, Eq)]
pub struct CodeLens {
    pub raw: String,
}

/// The edits of one document in a workspace edit; `path` is the path part of
/// the document's address. An edit with an annotation is `None`.
#[derive(Debug, PartialEq, Eq)]
pub struct TextDocumentEdit {
    pub uri: String,
    pub path: String,
    pub edits: Vec<Option<TextEdit>>,
}

/// The two forms of the document changes of a workspace edit.
#[derive(Debug, PartialEq, Eq)]
pub enum DocumentChanges {
    Edits(Vec<TextDocumentEdit>),
    Operations,
}

/// The edits of one document, by its address; `path` is the path part of
/// the address.
#[derive(Debug, PartialEq, Eq)]
pub struct UrlEdits {
    pub uri: String,
    pub path: String,
    pub edits: Vec<TextEdit>,
}

/// Edits to several documents.
#[derive(Debug, PartialEq, Eq)]
pub struct WorkspaceEdit {
    pub document_changes: Option<DocumentChanges>,
    pub changes: Option<Vec<UrlEdits>>,
}

/// A command or a code action that a server offers. Of a command's
/// arguments those that are workspace edits are kept; `raw` is the code
/// action as the server sent it.
#[derive(Debug, PartialEq, Eq)]
pub enum CodeActionOrCommand {
    Command { title: String, edits: Vec<WorkspaceEdit> },
    CodeAction { title: String, edit: Option<WorkspaceEdit>, raw: String },
}

impl CodeActionOrCommand {
    /// The title under which the item is offered.
    pub open spec fn spec_title(self) -> Seq<char> {
        match self {
            CodeActionOrCommand::Command { title, .. } => title@,
            CodeActionOrCommand::CodeAction { title, .. } => title@,
        }
    }

    /// The title under which the item is offered.
    pub fn title(&self) -> (t: &str)
        ensures
            t@ == self.spec_title(),
    {
        match self {
            CodeActionOrCommand::Command { title, .. } => title.as_str(),
            CodeActionOrCommand::CodeAction { title, .. } => title.as_str(),
        }
    }
}

/// Something that a click can run.
#[derive(Debug, PartialEq, Eq)]
pub enum Action {
    Command(CodeActionOrCommand),
    Completion(CompletionItem),
    CodeLens(CodeLens),
}

/// What a server says it can do, as far as the coordinator asks.
#[derive(Clone, Copy, Debug, PartialEq, Eq, Structural)]
pub struct Capabilities {
    pub definition: bool,
    pub implementation: bool,
    pub references: bool,
    pub document_symbol: bool,
    pub type_definition: bool,
    pub document_formatting: bool,
}

/// The requests that the coordinator sends.
#[derive(Clone, Copy, Debug, PartialEq, Eq, Structural)]
pub enum Method {
    Initialize,
    GotoDefinition,
    Hover,
    References,
    DocumentSymbol,
    SignatureHelp,
    CodeLens,
    CodeAction,
    CodeActionResolve,
    CodeLensResolve,
    Completion,
    Formatting,
    GotoImplementation,
    GotoTypeDefinition,
    SemanticTokensRange,
}

impl Method {
    /// The method's name on the wire.
    pub open spec fn spec_name(self) -> Seq<char> {
        match self {
            Method::Initialize => "initialize"@,
            Method::GotoDefinition => "textDocument/definition"@,
            Method::Hover => "textDocument/hover"@,
            Method::References => "textDocument/references"@,
            Method::DocumentSymbol => "textDocument/documentSymbol"@,
            Method::SignatureHelp => "textDocument/signatureHelp"@,
            Method::CodeLens => "textDocument/codeLens"@,
            Method::CodeAction => "textDocument/codeAction"@,
            Method::CodeActionResolve => "codeAction/resolve"@,
            Method::CodeLensResolve => "codeLens/resolve"@,
            Method::Completion => "textDocument/completion"@,
            Method::Formatting => "textDocument/formatting"@,
            Method::GotoImplementation => "textDocument/implementation"@,
            Method::GotoTypeDefinition => "textDocument/typeDefinition"@,
            Method::SemanticTokensRange => "textDocument/semanticTokens/range"@,
        }
    }

    /// The method's name on the wire.
    pub fn name(self) -> (s: &'static str)
        ensures
            s@ == self.spec_name(),
    {
        match self {
            Method::Initialize => "initialize",
            Method::GotoDefinition => "textDocument/definition",
            Method::Hover => "textDocument/hover",
            Method::References => "textDocument/references",
            Method::DocumentSymbol => "textDocument/documentSymbol",
            Method::SignatureHelp => "textDocument/signatureHelp",
            Method::CodeLens => "textDocument/codeLens",
            Method::CodeAction => "textDocument/codeAction",
            Method::CodeActionResolve => "codeAction/resolve",
            Method::CodeLensResolve => "codeLens/resolve",
            Method::Completion => "textDocument/completion",
            Method::Formatting => "textDocument/formatting",
            Method::GotoImplementation => "textDocument/implementation",
            Method::GotoTypeDefinition => "textDocument/typeDefinition",
            Method::SemanticTokensRange => "textDocument/semanticTokens/range",
        }
    }
}

} // verus!
