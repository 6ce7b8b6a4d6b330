use vstd::prelude::*;

verus! {

/// A parsed command line.
#[derive(Debug)]
pub struct Cli {
    pub command: Commands,
}

/// The commands of the tool.
#[derive(Debug)]
pub enum Commands {
    /// Deliver a message to an agent inbox
    Send(SendArgs),
    /// List unread messages for one recipient or all inboxes
    Scan(ScanArgs),
    /// Print the resolved inbox path for a recipient
    Addr(AddrArgs),
    /// Read a message by ID
    Read(ReadArgs),
    /// Soft-delete a message into the Maildir++ .Trash folder
    Discard(DiscardArgs),
    /// Report whether a sent message is unread, read, or absent
    Receipt(ReceiptArgs),
    /// Output the agent-facing workflow manual
    Prime(PrimeArgs),
}

/// Options of `send`.
#[derive(Debug)]
pub struct SendArgs {
    /// Recipient session ID, canonical name, or agent slug
    pub to: String,
    /// Sender ID; defaults to AGENT_MAIL_ID or "unknown"
    pub from: Option<String>,
    /// Address to use when composing a reply
    pub reply_to: Option<String>,
    /// Subject line
    pub subject: Option<String>,
    /// Message ID this message replies to
    pub in_reply_to: Option<String>,
    /// Inline message body
    pub body: Option<String>,
    /// Read the message body from a file
    pub body_file: Option<String>,
    /// Print a JSON delivery receipt instead of the bare message ID
    pub json: bool,
}

/// Options of `scan`.
#[derive(Debug)]
pub struct ScanArgs {
    /// Recipient ID whose unread messages should be listed
    pub to: Option<String>,
    /// List unread messages in every agent inbox
    pub all: bool,
    /// Print the unread messages as a JSON array
    pub json: bool,
}

/// Options of `addr`.
#[derive(Debug)]
pub struct AddrArgs {
    /// Recipient session ID, canonical name, or agent slug
    pub recipient: String,
    /// Print the address as a JSON object
    pub json: bool,
}

/// Options of `discard`.
#[derive(Debug)]
pub struct DiscardArgs {
    /// Message ID to move to .Trash
    pub message_id: String,
}

/// Options of `read`.
#[derive(Debug)]
pub struct ReadArgs {
    /// Message ID to read
    pub message_id: String,
    /// Print without moving an unread message to cur/
    pub peek: bool,
}

/// Options of `receipt`.
#[derive(Debug)]
pub struct ReceiptArgs {
    /// Message ID printed by send
    pub message_id: String,
    /// Print the receipt as a JSON object
    pub json: bool,
}

/// Options of `prime`.
#[derive(Debug)]
pub struct PrimeArgs {
    /// Output the manual prelude without the generated command reference
    pub prelude: bool,
}

} // verus!
