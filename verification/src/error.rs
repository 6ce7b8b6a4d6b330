use vstd::prelude::*;
use vstd::string::StringExecFns;

use crate::text::{concat, owned};

verus! {

broadcast use vstd::string::group_string_axioms;

/// Why a mail operation was refused.
#[derive(Debug)]
pub enum MailError {
    /// A path component (recipient, mailbox or slug) that could escape the mail root.
    InvalidComponent { label: String, value: String },
    /// A header value that would break the header block.
    HeaderNewline { label: String },
    /// Both an inline body and a body file were given.
    ConflictingBody,
    /// No body was given inline and none was read from a file or standard input.
    MissingBody,
    /// `scan` was given both or neither of a recipient and `--all`.
    ScanTarget,
    /// The message ID has no final path component.
    NotAFileName { value: String },
    /// The message ID is empty or holds a separator or NUL.
    InvalidMessageId { value: String },
    /// The identity tool is installed but could not resolve the recipient.
    LookupFailed { input: String },
    /// No readable message with this ID.
    NoMessage { id: String },
    /// No inbox holds this message ID in any state.
    UnknownMessage { id: String },
    /// A message with this ID is already in an inbox.
    MessageExists { id: String },
    /// The clock reading cannot be written as a calendar date.
    DateOutOfRange,
    /// A message listed in an inbox could not be read.
    UnreadableMessage { path: String },
}

/// The abstract value of a `MailError`: the same variants over character sequences.
pub enum MailErrorView {
    InvalidComponent { label: Seq<char>, value: Seq<char> },
    HeaderNewline { label: Seq<char> },
    ConflictingBody,
    MissingBody,
    ScanTarget,
    NotAFileName { value: Seq<char> },
    InvalidMessageId { value: Seq<char> },
    LookupFailed { input: Seq<char> },
    NoMessage { id: Seq<char> },
    UnknownMessage { id: Seq<char> },
    MessageExists { id: Seq<char> },
    DateOutOfRange,
    UnreadableMessage { path: Seq<char> },
}

impl View for MailError {
    type V = MailErrorView;

    open spec fn view(&self) -> MailErrorView {
        match self {
            MailError::InvalidComponent { label, value } => MailErrorView::InvalidComponent {
                label: label@,
                value: value@,
            },
            MailError::HeaderNewline { label } => MailErrorView::HeaderNewline { label: label@ },
            MailError::ConflictingBody => MailErrorView::ConflictingBody,
            MailError::MissingBody => MailErrorView::MissingBody,
            MailError::ScanTarget => MailErrorView::ScanTarget,
            MailError::NotAFileName { value } => MailErrorView::NotAFileName { value: value@ },
            MailError::InvalidMessageId { value } => MailErrorView::InvalidMessageId {
                value: value@,
            },
            MailError::LookupFailed { input } => MailErrorView::LookupFailed { input: input@ },
            MailError::NoMessage { id } => MailErrorView::NoMessage { id: id@ },
            MailError::UnknownMessage { id } => MailErrorView::UnknownMessage { id: id@ },
            MailError::MessageExists { id } => MailErrorView::MessageExists { id: id@ },
            MailError::DateOutOfRange => MailErrorView::DateOutOfRange,
            MailError::UnreadableMessage { path } => MailErrorView::UnreadableMessage {
                path: path@,
            },
        }
    }
}

/// What `std`'s `Debug` formatting writes for a string: the text in double quotes, escaped.
pub uninterp spec fn debug_quoted(text: Seq<char>) -> Seq<char>;

/// Calls `<str as core::fmt::Debug>::fmt` through `format!("{:?}", ..)`; the contract only
/// names the result, which is a function of the text alone.
#[verifier::external_body]
fn debug_text(value: &str) -> (out: String)
    ensures
        out@ == debug_quoted(value@),
{
    format!("{:?}", value)
}

/// The text that a user is shown for an error.
pub open spec fn error_text(e: MailErrorView) -> Seq<char> {
    match e {
        MailErrorView::InvalidComponent { label, value } => "invalid "@ + label + ": "@
            + debug_quoted(value),
        MailErrorView::HeaderNewline { label } => label + " cannot contain a newline"@,
        MailErrorView::ConflictingBody => "--body and --body-file are mutually exclusive"@,
        MailErrorView::MissingBody => "no message body was provided"@,
        MailErrorView::ScanTarget => "scan requires exactly one of --to ID or --all"@,
        MailErrorView::NotAFileName { value } => "message ID must be a filename"@,
        MailErrorView::InvalidMessageId { value } => "invalid message ID: "@ + debug_quoted(
            value,
        ),
        MailErrorView::LookupFailed { input } => "agent-id lookup failed for "@ + debug_quoted(
            input,
        ),
        MailErrorView::NoMessage { id } => "no message for '"@ + id + "'"@,
        MailErrorView::UnknownMessage { id } => "unknown\t"@ + id
            + "\tnot in any inbox (read and discarded, or never delivered)"@,
        MailErrorView::MessageExists { id } => "message "@ + id + " already exists"@,
        MailErrorView::DateOutOfRange => "the current time cannot be written as a date"@,
        MailErrorView::UnreadableMessage { path } => "reading message headers from "@ + path,
    }
}

impl MailError {
    /// The text shown to the user for this error.
    pub fn message(&self) -> (out: String)
        ensures
            out@ == error_text(self@),
    {
        match self {
            MailError::InvalidComponent { label, value } => {
                let mut out = owned("invalid ");
                out.append(label.as_str());
                out.append(": ");
                let q = debug_text(value.as_str());
                out.append(q.as_str());
                out
            },
            MailError::HeaderNewline { label } => concat(
                label.as_str(),
                " cannot contain a newline",
            ),
            MailError::ConflictingBody => owned("--body and --body-file are mutually exclusive"),
            MailError::MissingBody => owned("no message body was provided"),
            MailError::ScanTarget => owned("scan requires exactly one of --to ID or --all"),
            MailError::NotAFileName { .. } => owned("message ID must be a filename"),
            MailError::InvalidMessageId { value } => {
                let q = debug_text(value.as_str());
                concat("invalid message ID: ", q.as_str())
            },
            MailError::LookupFailed { input } => {
                let q = debug_text(input.as_str());
                concat("agent-id lookup failed for ", q.as_str())
            },
            MailError::NoMessage { id } => {
                let mut out = owned("no message for '");
                out.append(id.as_str());
                out.append("'");
                out
            },
            MailError::UnknownMessage { id } => {
                let mut out = owned("unknown\t");
                out.append(id.as_str());
                out.append("\tnot in any inbox (read and discarded, or never delivered)");
                out
            },
            MailError::MessageExists { id } => {
                let mut out = owned("message ");
                out.append(id.as_str());
                out.append(" already exists");
                out
            },
            MailError::DateOutOfRange => owned("the current time cannot be written as a date"),
            MailError::UnreadableMessage { path } => concat(
                "reading message headers from ",
                path.as_str(),
            ),
        }
    }
}

} // verus!
