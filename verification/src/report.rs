use vstd::prelude::*;

use crate::store::{Delivery, Effect};

verus! {

/// What `send` reports of a delivery.
#[derive(Debug)]
pub struct SentReceipt {
    pub id: String,
    /// The mailbox directory name that received the message.
    pub recipient: String,
    pub sender: String,
    pub subject: String,
    /// The `Date` header of the message.
    pub timestamp: String,
    /// The inbox directory.
    pub mailbox: String,
}

/// The abstract value of a `SentReceipt`.
pub struct SentReceiptView {
    pub id: Seq<char>,
    pub recipient: Seq<char>,
    pub sender: Seq<char>,
    pub subject: Seq<char>,
    pub timestamp: Seq<char>,
    pub mailbox: Seq<char>,
}

impl View for SentReceipt {
    type V = SentReceiptView;

    open spec fn view(&self) -> SentReceiptView {
        SentReceiptView {
            id: self.id@,
            recipient: self.recipient@,
            sender: self.sender@,
            subject: self.subject@,
            timestamp: self.timestamp@,
            mailbox: self.mailbox@,
        }
    }
}

/// One unread message as `scan` lists it.
#[derive(Debug)]
pub struct ScanEntry {
    /// The inbox directory.
    pub mailbox: String,
    pub id: String,
    pub sender: String,
    pub subject: String,
}

/// The abstract value of a `ScanEntry`.
pub struct ScanEntryView {
    pub mailbox: Seq<char>,
    pub id: Seq<char>,
    pub sender: Seq<char>,
    pub subject: Seq<char>,
}

impl View for ScanEntry {
    type V = ScanEntryView;

    open spec fn view(&self) -> ScanEntryView {
        ScanEntryView {
            mailbox: self.mailbox@,
            id: self.id@,
            sender: self.sender@,
            subject: self.subject@,
        }
    }
}

/// The abstract value of a list of scan entries.
pub open spec fn entries_view(v: Seq<ScanEntry>) -> Seq<ScanEntryView> {
    v.map_values(|e: ScanEntry| e@)
}

/// What `receipt` reports of a message.
#[derive(Debug)]
pub struct Receipt {
    pub state: Delivery,
    pub id: String,
    /// The mailbox directory name that holds the message.
    pub recipient: String,
    pub delivered_at: String,
    pub age_hours: u64,
}

/// The abstract value of a `Receipt`.
pub struct ReceiptView {
    pub state: Delivery,
    pub id: Seq<char>,
    pub recipient: Seq<char>,
    pub delivered_at: Seq<char>,
    pub age_hours: u64,
}

impl View for Receipt {
    type V = ReceiptView;

    open spec fn view(&self) -> ReceiptView {
        ReceiptView {
            state: self.state,
            id: self.id@,
            recipient: self.recipient@,
            delivered_at: self.delivered_at@,
            age_hours: self.age_hours,
        }
    }
}

/// What a command reports.
#[derive(Debug)]
pub enum Report {
    Sent(SentReceipt),
    Unread(Vec<ScanEntry>),
    Address { recipient: String, mailbox: String },
    /// The message file to print.
    Message { path: String },
    Receipt(Receipt),
    /// A discard: the mailbox whose message was filed in `.Trash`, or none where no inbox
    /// held the ID.
    Discarded { id: String, held_by: Option<String> },
    /// The workflow manual; without `prelude` the caller appends the command reference
    /// that its argument parser generates.
    Manual { prelude: bool },
}

/// The result of a command: what to report, the changes to carry out on disk, and
/// whether the report is wanted as JSON.
#[derive(Debug)]
pub struct Outcome {
    pub report: Report,
    pub effects: Vec<Effect>,
    pub json: bool,
}

} // verus!
