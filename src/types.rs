//! Payload types carried in envelopes between sessions and the extension,
//! and the results that replies are turned into.

use vstd::prelude::*;
use crate::wire::ResponsePayload;

verus! {

/// How the extension places review content.
#[derive(Debug, Clone, Copy, PartialEq, Eq, Structural)]
pub enum ReviewMode {
    Replace,
    UpdateSection,
    Append,
}

impl Default for ReviewMode {
    fn default() -> (r: Self)
        ensures
            r == ReviewMode::Replace,
    {
        ReviewMode::Replace
    }
}

/// Parameters of a request to present a review.
#[derive(Debug, Clone)]
pub struct PresentReviewParams {
    /// Markdown content of the review.
    pub content: String,
    /// How to place the content.
    pub mode: ReviewMode,
    /// Section name for `UpdateSection`.
    pub section: Option<String>,
    /// Base directory for resolving relative file references.
    pub base_uri: String,
}

/// The outcome of presenting a review.
#[derive(Debug, Clone)]
pub struct PresentReviewResult {
    pub success: bool,
    pub message: Option<String>,
}

/// Log levels of log envelopes.
#[derive(Debug, Clone, Copy, PartialEq, Eq, Structural)]
pub enum LogLevel {
    Info,
    Error,
    Debug,
}

/// A log line sent to the extension.
#[derive(Debug, Clone)]
pub struct LogParams {
    pub level: LogLevel,
    pub message: String,
}

/// The editor selection reported by the extension.
#[derive(Debug, Clone)]
pub struct GetSelectionResult {
    pub selected_text: Option<String>,
    pub file_path: Option<String>,
    pub start_line: Option<u32>,
    pub start_column: Option<u32>,
    pub end_line: Option<u32>,
    pub end_column: Option<u32>,
    pub line_number: Option<u32>,
    pub document_language: Option<String>,
    pub is_untitled: Option<bool>,
    /// Explains the selection state.
    pub message: Option<String>,
}

/// Payload of a presence announcement.
#[derive(Debug, Clone, Copy, PartialEq, Eq, Structural)]
pub struct PoloPayload {
    pub terminal_shell_pid: u32,
}

/// Payload of a departure announcement.
#[derive(Debug, Clone, Copy, PartialEq, Eq, Structural)]
pub struct GoodbyePayload {
    pub terminal_shell_pid: u32,
}

/// Payload of a request to resolve a symbol by name.
#[derive(Debug, Clone)]
pub struct ResolveSymbolByNamePayload {
    pub name: String,
}

/// Payload of a request for all references to a symbol.
#[derive(Debug, Clone)]
pub struct FindAllReferencesPayload {
    pub symbol: SymbolDef,
}

/// A line and column, both counted from 1.
#[derive(Debug, Clone, Copy, PartialEq, Eq, Structural)]
pub struct FileLocation {
    pub line: u32,
    pub column: u32,
}

/// A range in a file, relative to the workspace root.
#[derive(Debug, Clone)]
pub struct FileRange {
    pub path: String,
    pub start: FileLocation,
    pub end: FileLocation,
    /// Enclosing text, if known.
    pub content: Option<String>,
}

/// Where a symbol is defined.
#[derive(Debug, Clone)]
pub struct SymbolDef {
    pub name: String,
    pub kind: Option<String>,
    pub defined_at: FileRange,
}

/// A reference to a symbol, with the symbol's definition.
#[derive(Debug, Clone)]
pub struct SymbolRef {
    pub definition: SymbolDef,
    pub referenced_at: FileRange,
}

/// The message of a successful presentation that the extension did not comment on.
pub open spec fn displayed_message() -> Seq<char> {
    "Review successfully displayed"@
}

/// The message of a failed presentation that the extension did not explain.
pub open spec fn unknown_error_message() -> Seq<char> {
    "Unknown error"@
}

/// The presentation result a reply amounts to: its success flag, and its
/// error text if it has one, else a default message for the flag.
pub fn review_result(resp: &ResponsePayload) -> (r: PresentReviewResult)
    ensures
        r.success == resp.success,
        resp.error matches Some(e) ==> (r.message matches Some(m) && m@ == e@),
        resp.error is None && resp.success ==> (r.message matches Some(m) && m@
            == displayed_message()),
        resp.error is None && !resp.success ==> (r.message matches Some(m) && m@
            == unknown_error_message()),
{
    let message = match &resp.error {
        Some(e) => e.clone(),
        None => if resp.success {
            "Review successfully displayed".to_owned()
        } else {
            "Unknown error".to_owned()
        },
    };
    PresentReviewResult { success: resp.success, message: Some(message) }
}

/// The result of presenting a review when no extension is attached (test mode).
pub fn test_mode_review_result() -> (r: PresentReviewResult)
    ensures
        r.success,
        r.message matches Some(m) && m@ == "Review successfully displayed (test mode)"@,
{
    PresentReviewResult {
        success: true,
        message: Some("Review successfully displayed (test mode)".to_owned()),
    }
}

/// A selection result with nothing selected and the given explanation.
pub fn empty_selection(message: String) -> (r: GetSelectionResult)
    ensures
        r.selected_text is None,
        r.file_path is None,
        r.start_line is None,
        r.start_column is None,
        r.end_line is None,
        r.end_column is None,
        r.line_number is None,
        r.document_language is None,
        r.is_untitled is None,
        r.message == Some(message),
{
    GetSelectionResult {
        selected_text: None,
        file_path: None,
        start_line: None,
        start_column: None,
        end_line: None,
        end_column: None,
        line_number: None,
        document_language: None,
        is_untitled: None,
        message: Some(message),
    }
}

/// The selection reported when no extension is attached (test mode).
pub fn test_mode_selection() -> (r: GetSelectionResult)
    ensures
        r.selected_text is None,
        r.message matches Some(m) && m@ == "No selection available (test mode)"@,
{
    empty_selection("No selection available (test mode)".to_owned())
}

/// The selection reported when the reply carried no selection data.
pub fn selection_without_data() -> (r: GetSelectionResult)
    ensures
        r.selected_text is None,
        r.message matches Some(m) && m@ == "No selection data in response"@,
{
    empty_selection("No selection data in response".to_owned())
}

} // verus!
