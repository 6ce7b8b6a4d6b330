use vstd::prelude::*;
use vstd::string::StringExecFns;

use crate::prime::MANUAL;
use crate::report::{entries_view, Receipt, Report, ScanEntry, ScanEntryView};
use crate::store::Delivery;
use crate::text::owned;

verus! {

broadcast use vstd::string::group_string_axioms;

/// The decimal digit for `d` (below ten).
pub open spec fn digit_char(d: nat) -> char {
    seq!['0', '1', '2', '3', '4', '5', '6', '7', '8', '9'][d as int]
}

/// The decimal numeral of `n`, without leading zeros.
pub open spec fn decimal(n: nat) -> Seq<char>
    decreases n,
{
    if n < 10 {
        seq![digit_char(n)]
    } else {
        decimal(n / 10).push(digit_char(n % 10))
    }
}

fn digit_text(d: u64) -> (out: &'static str)
    requires
        d < 10,
    ensures
        out@ == seq![digit_char(d as nat)],
{
    proof {
        reveal_strlit("0");
        reveal_strlit("1");
        reveal_strlit("2");
        reveal_strlit("3");
        reveal_strlit("4");
        reveal_strlit("5");
        reveal_strlit("6");
        reveal_strlit("7");
        reveal_strlit("8");
        reveal_strlit("9");
    }
    let out = if d == 0 {
        "0"
    } else if d == 1 {
        "1"
    } else if d == 2 {
        "2"
    } else if d == 3 {
        "3"
    } else if d == 4 {
        "4"
    } else if d == 5 {
        "5"
    } else if d == 6 {
        "6"
    } else if d == 7 {
        "7"
    } else if d == 8 {
        "8"
    } else {
        "9"
    };
    assert(out@ =~= seq![digit_char(d as nat)]);
    out
}

/// The decimal numeral of `n`.
pub fn decimal_text(n: u64) -> (out: String)
    ensures
        out@ == decimal(n as nat),
    decreases n,
{
    if n < 10 {
        owned(digit_text(n))
    } else {
        let mut out = decimal_text(n / 10);
        out.append(digit_text(n % 10));
        out
    }
}

/// The word a receipt uses for a state.
pub open spec fn state_word(d: Delivery) -> Seq<char> {
    match d {
        Delivery::Unread => "unread"@,
        Delivery::Read => "read"@,
        Delivery::Discarded => "discarded"@,
    }
}

/// One line of the `scan` listing: inbox, ID, sender and subject, separated by tabs.
pub open spec fn scan_line(e: ScanEntryView) -> Seq<char> {
    e.mailbox + "\t"@ + e.id + "\tfrom:"@ + e.sender + "\t"@ + e.subject + "\n"@
}

/// The `scan` listing: one line per unread message.
pub open spec fn scan_lines(entries: Seq<ScanEntryView>) -> Seq<char>
    decreases entries.len(),
{
    if entries.len() == 0 {
        Seq::empty()
    } else {
        scan_lines(entries.drop_last()) + scan_line(entries.last())
    }
}

/// The text that the library writes for a report. A `Message` report prints the message
/// file itself, which the caller reads; a `Manual` report without `prelude` is followed by
/// the command reference, which the caller's argument parser generates from its command
/// definitions.
pub open spec fn render_spec(report: Report) -> Seq<char> {
    match report {
        Report::Sent(r) => r.id@ + "\n"@,
        Report::Unread(v) => if v@.len() == 0 {
            "(no unread messages)\n"@
        } else {
            scan_lines(entries_view(v@))
        },
        Report::Address { recipient, mailbox } => mailbox@ + "\n"@,
        Report::Message { path } => Seq::empty(),
        Report::Receipt(r) => state_word(r.state) + "\t"@ + r.id@ + "\tto:"@ + r.recipient@
            + "\tdelivered:"@ + r.delivered_at@ + "\t"@ + decimal(r.age_hours as nat) + "h ago\n"@,
        Report::Discarded { id, held_by } => match held_by {
            Some(r) => "discarded\t"@ + id@ + "\tto:"@ + r@ + "\n"@,
            None => Seq::empty(),
        },
        Report::Manual { prelude } => MANUAL@,
    }
}

fn render_entries(v: &Vec<ScanEntry>) -> (out: String)
    ensures
        out@ == scan_lines(entries_view(v@)),
{
    let mut out = owned("");
    proof {
        reveal_strlit("");
    }
    let ghost es = entries_view(v@);
    let mut i: usize = 0;
    assert(es.take(0) =~= Seq::<ScanEntryView>::empty());
    while i < v.len()
        invariant
            i <= v.len(),
            es == entries_view(v@),
            out@ == scan_lines(es.take(i as int)),
        decreases v.len() - i,
    {
        let e = &v[i];
        out.append(e.mailbox.as_str());
        out.append("\t");
        out.append(e.id.as_str());
        out.append("\tfrom:");
        out.append(e.sender.as_str());
        out.append("\t");
        out.append(e.subject.as_str());
        out.append("\n");
        assert(es.take(i + 1).drop_last() =~= es.take(i as int));
        assert(es.take(i + 1).last() == e@);
        i = i + 1;
    }
    assert(es.take(v.len() as int) =~= es);
    out
}

fn state_text(d: Delivery) -> (out: &'static str)
    ensures
        out@ == state_word(d),
{
    match d {
        Delivery::Unread => "unread",
        Delivery::Read => "read",
        Delivery::Discarded => "discarded",
    }
}

fn render_receipt(r: &Receipt) -> (out: String)
    ensures
        out@ == state_word(r.state) + "\t"@ + r.id@ + "\tto:"@ + r.recipient@ + "\tdelivered:"@
            + r.delivered_at@ + "\t"@ + decimal(r.age_hours as nat) + "h ago\n"@,
{
    let mut out = owned(state_text(r.state));
    out.append("\t");
    out.append(r.id.as_str());
    out.append("\tto:");
    out.append(r.recipient.as_str());
    out.append("\tdelivered:");
    out.append(r.delivered_at.as_str());
    out.append("\t");
    let age = decimal_text(r.age_hours);
    out.append(age.as_str());
    out.append("h ago\n");
    out
}

/// The text that a command prints for its report, as `render_spec` describes.
pub fn render_text(report: &Report) -> (out: String)
    ensures
        out@ == render_spec(*report),
{
    match report {
        Report::Sent(r) => {
            let mut out = r.id.clone();
            out.append("\n");
            out
        },
        Report::Unread(v) => {
            if v.len() == 0 {
                owned("(no unread messages)\n")
            } else {
                render_entries(v)
            }
        },
        Report::Address { recipient, mailbox } => {
            let mut out = mailbox.clone();
            out.append("\n");
            out
        },
        Report::Message { path } => {
            proof {
                reveal_strlit("");
            }
            owned("")
        },
        Report::Receipt(r) => render_receipt(r),
        Report::Discarded { id, held_by } => match held_by {
            Some(r) => {
                let mut out = owned("discarded\t");
                out.append(id.as_str());
                out.append("\tto:");
                out.append(r.as_str());
                out.append("\n");
                out
            },
            None => {
                proof {
                    reveal_strlit("");
                }
                owned("")
            },
        },
        Report::Manual { prelude } => owned(MANUAL),
    }
}

} // verus!
