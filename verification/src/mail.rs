use vstd::prelude::*;
use vstd::string::StringExecFns;
use vstd::string::StrSliceExecFns;

use crate::cli::{
    AddrArgs, Cli, Commands, DiscardArgs, ReadArgs, ReceiptArgs, ScanArgs, SendArgs,
};
use crate::error::{MailError, MailErrorView};
use crate::maildir::{
    contains_text, find_message, folder_path, folder_spec, inbox_path, inbox_spec, message_file, message_file_name,
    message_files, message_id_of_file, message_stem, normalize_message_id, normalized_id,
    unread_files, Folder,
};
use crate::message::{
    date_char, date_shape, format_message, header_value, message_header, message_text, opt_view,
    utc_date_text, utc_text, FOUR_DIGIT_YEARS_END,
};
use crate::report::{
    entries_view, Outcome, Receipt, ReceiptView, Report, ScanEntry, ScanEntryView, SentReceipt,
};
use crate::store::{
    effects_view, locate, mailbox_holds, mailbox_index, mailbox_state, status, store_view, Delivery, Effect, EffectView, Mailbox,
    MailboxView,
};
use crate::text::{join_path, join_spec, owned, sort_texts, text_order, texts};
use crate::validate::{
    component_ok, header_ok, validate_component, validate_header, validate_optional_header,
};

verus! {

broadcast use vstd::string::group_string_axioms;

// ---------------------------------------------------------------------------
// What the caller gathered before the command runs

/// What the identity tool (`agent-id lookup <id> --json`) answered for an identifier.
#[derive(Debug)]
pub enum Lookup {
    /// The tool is not installed, or was not asked.
    Unavailable,
    /// The tool is installed but did not resolve the identifier.
    Failed,
    /// The tool answered with something that is not an identity assignment.
    Unreadable,
    /// The tool resolved the identifier to an agent: its mailbox slug, and its display
    /// name where the tool gave one.
    Found { slug: String, name: Option<String> },
}

/// The abstract value of a `Lookup`.
pub enum LookupView {
    Unavailable,
    Failed,
    Unreadable,
    Found { slug: Seq<char>, name: Option<Seq<char>> },
}

impl View for Lookup {
    type V = LookupView;

    open spec fn view(&self) -> LookupView {
        match self {
            Lookup::Unavailable => LookupView::Unavailable,
            Lookup::Failed => LookupView::Failed,
            Lookup::Unreadable => LookupView::Unreadable,
            Lookup::Found { slug, name } => LookupView::Found { slug: slug@, name: opt_view(*name) },
        }
    }
}

impl Lookup {
    /// A copy of this answer.
    pub fn duplicate(&self) -> (out: Lookup)
        ensures
            out@ == self@,
    {
        match self {
            Lookup::Unavailable => Lookup::Unavailable,
            Lookup::Failed => Lookup::Failed,
            Lookup::Unreadable => Lookup::Unreadable,
            Lookup::Found { slug, name } => Lookup::Found {
                slug: slug.clone(),
                name: match name {
                    Some(n) => Some(n.clone()),
                    None => None,
                },
            },
        }
    }
}

/// The identity tool's answer for one identifier.
#[derive(Debug)]
pub struct Identity {
    pub query: String,
    pub lookup: Lookup,
}

/// The text of one message file, read for `scan`.
#[derive(Debug)]
pub struct MessageText {
    pub mailbox: String,
    pub file: String,
    pub text: String,
}

/// Everything a command reads from outside: the mail root and a listing of its mailboxes,
/// the environment, identity lookups, the message body, a fresh message ID and the time.
#[derive(Debug)]
pub struct Environment {
    /// The mail root directory.
    pub root: String,
    /// The `AGENT_MAIL_ID` environment variable.
    pub mail_id: Option<String>,
    /// Identity lookups made for the identifiers that the command names.
    pub identities: Vec<Identity>,
    /// A message body read from a file or standard input.
    pub body: Option<String>,
    /// A fresh message ID for `send`.
    pub fresh_id: String,
    /// Milliseconds since the Unix epoch.
    pub now_ms: u64,
    /// The mailboxes under the root, in listing order.
    pub mailboxes: Vec<Mailbox>,
    /// The text of the unread messages that `scan` reports.
    pub texts: Vec<MessageText>,
    /// The age of message files by their modification time, for `receipt`.
    pub ages: Vec<FileAge>,
}

/// How many whole hours ago a message file was last modified.
#[derive(Debug)]
pub struct FileAge {
    pub mailbox: String,
    pub folder: Folder,
    pub file: String,
    pub hours: u64,
}

/// The answer recorded for `query` (the first one), or `Unavailable` if none was.
pub open spec fn lookup_from(ids: Seq<Identity>, query: Seq<char>, i: int) -> LookupView
    decreases ids.len() - i,
{
    if i < 0 || i >= ids.len() {
        LookupView::Unavailable
    } else if ids[i].query@ == query {
        ids[i].lookup@
    } else {
        lookup_from(ids, query, i + 1)
    }
}

/// The answer recorded for `query`.
pub open spec fn lookup_spec(ids: Seq<Identity>, query: Seq<char>) -> LookupView {
    lookup_from(ids, query, 0)
}

/// The identity tool's answer for `query`.
pub fn lookup(ids: &Vec<Identity>, query: &str) -> (out: Lookup)
    ensures
        out@ == lookup_spec(ids@, query@),
{
    let q = owned(query);
    let mut i: usize = 0;
    while i < ids.len()
        invariant
            i <= ids.len(),
            q@ == query@,
            lookup_spec(ids@, query@) == lookup_from(ids@, query@, i as int),
        decreases ids.len() - i,
    {
        if ids[i].query == q {
            return ids[i].lookup.duplicate();
        }
        i = i + 1;
    }
    Lookup::Unavailable
}

/// The mail root: the configured directory, else `/tmp/agent-mail`.
pub fn mail_root(configured: Option<String>) -> (root: String)
    ensures
        root@ == match configured {
            Some(c) => c@,
            None => "/tmp/agent-mail"@,
        },
{
    match configured {
        Some(c) => c,
        None => owned("/tmp/agent-mail"),
    }
}

// ---------------------------------------------------------------------------
// Recipients

/// A resolved recipient: the mailbox directory and the name written in headers.
#[derive(Debug)]
pub struct Recipient {
    pub mailbox: String,
    pub display: String,
}

/// The name shown for an agent that the identity tool found: its display name, else its
/// slug.
pub open spec fn agent_name(slug: Seq<char>, name: Option<Seq<char>>) -> Seq<char> {
    match name {
        Some(n) => n,
        None => slug,
    }
}

/// How a recipient identifier resolves: it must be a valid directory name; where the
/// identity tool resolves it to a valid slug, the slug names the mailbox and the agent's
/// name is shown; where the tool is not installed, answers with something unreadable or
/// with a slug that is not a valid directory name, the identifier is used as it is; where
/// the tool fails, the recipient is refused.
pub open spec fn resolve_spec(input: Seq<char>, lookup: LookupView) -> Result<
    (Seq<char>, Seq<char>),
    MailErrorView,
> {
    if !component_ok(input) {
        Err(MailErrorView::InvalidComponent { label: "recipient identifier"@, value: input })
    } else {
        match lookup {
            LookupView::Failed => Err(MailErrorView::LookupFailed { input }),
            LookupView::Found { slug, name } => if component_ok(slug) {
                Ok((slug, agent_name(slug, name)))
            } else {
                Ok((input, input))
            },
            _ => Ok((input, input)),
        }
    }
}

/// Resolves a recipient identifier to its mailbox, as `resolve_spec` describes.
pub fn resolve_mailbox(input: &str, lookup: &Lookup) -> (res: Result<Recipient, MailError>)
    ensures
        match resolve_spec(input@, lookup@) {
            Ok((m, d)) => res matches Ok(r) && r.mailbox@ == m && r.display@ == d,
            Err(e) => res matches Err(r) && r@ == e,
        },
{
    match validate_component(input, "recipient identifier") {
        Ok(()) => {},
        Err(e) => return Err(e),
    }
    match lookup {
        Lookup::Failed => Err(MailError::LookupFailed { input: owned(input) }),
        Lookup::Found { slug, name } => {
            match validate_component(slug.as_str(), "agent-id slug") {
                Ok(()) => Ok(Recipient { mailbox: slug.clone(), display: found_name(slug, name) }),
                Err(_) => Ok(Recipient { mailbox: owned(input), display: owned(input) }),
            }
        },
        _ => Ok(Recipient { mailbox: owned(input), display: owned(input) }),
    }
}

/// The name shown for an agent that the identity tool found, as `agent_name` describes.
fn found_name(slug: &String, name: &Option<String>) -> (out: String)
    ensures
        out@ == agent_name(slug@, opt_view(*name)),
{
    match name {
        Some(n) => n.clone(),
        None => slug.clone(),
    }
}

/// The inbox directory of a recipient under `root`. The mailbox is a single directory
/// name (not empty, `.` or `..`, free of `/`), so the inbox lies inside the root.
pub fn resolve_inbox(root: &str, input: &str, lookup: &Lookup) -> (res: Result<String, MailError>)
    ensures
        match resolve_spec(input@, lookup@) {
            Ok((m, d)) => res matches Ok(p) && p@ == inbox_spec(root@, m) && component_ok(m),
            Err(e) => res matches Err(r) && r@ == e,
        },
{
    match resolve_mailbox(input, lookup) {
        Ok(r) => Ok(inbox_path(root, r.mailbox.as_str())),
        Err(e) => Err(e),
    }
}


// ---------------------------------------------------------------------------
// send

/// The sender's identifier: `--from`, else `AGENT_MAIL_ID`, else `unknown`.
pub open spec fn sender_id(args: SendArgs, env: Environment) -> Seq<char> {
    match args.from {
        Some(f) => f@,
        None => match env.mail_id {
            Some(m) => m@,
            None => "unknown"@,
        },
    }
}

/// The name written for an identifier: the name of the agent that the identity tool found
/// for it (its display name, else its slug), the identifier itself otherwise.
pub open spec fn display_name(id: Seq<char>, lookup: LookupView) -> Seq<char> {
    match lookup {
        LookupView::Found { slug, name } => agent_name(slug, name),
        _ => id,
    }
}

/// The subject: `--subject`, else `(no subject)`.
pub open spec fn subject_of(args: SendArgs) -> Seq<char> {
    match args.subject {
        Some(s) => s@,
        None => "(no subject)"@,
    }
}

/// The body: `--body`, else the text read from `--body-file` or standard input; both an
/// inline body and a body file are refused.
pub open spec fn body_spec(args: SendArgs, env: Environment) -> Result<Seq<char>, MailErrorView> {
    match args.body {
        Some(b) => if args.body_file is Some {
            Err(MailErrorView::ConflictingBody)
        } else {
            Ok(b@)
        },
        None => match env.body {
            Some(b) => Ok(b@),
            None => Err(MailErrorView::MissingBody),
        },
    }
}

/// The abstract value of an optional text argument.
pub open spec fn opt_arg(value: Option<String>) -> Option<Seq<char>> {
    opt_view(value)
}

/// The whole seconds of the clock reading.
pub open spec fn date_seconds(env: Environment) -> int {
    (env.now_ms / 1000) as int
}

/// Whether the mailbox `mailbox` (the first of that name) holds the message `id` in any of
/// its folders.
pub open spec fn recipient_holds(store: Seq<MailboxView>, mailbox: Seq<char>, id: Seq<char>) -> bool {
    let k = mailbox_index(store, mailbox);
    k < store.len() && mailbox_state(store[k], id) is Some
}

/// What a successful `send` delivers.
pub struct SendPlan {
    pub mailbox: Seq<char>,
    pub to_name: Seq<char>,
    pub sender: Seq<char>,
    pub subject: Seq<char>,
    pub date: Seq<char>,
    pub message: Seq<char>,
}

/// The outcome of `send`: the recipient resolves; every header value is free of line
/// breaks (checked in the order From, To, Reply-To, Subject, In-Reply-To); there is one
/// body; the fresh ID can name a file and a header, and the recipient's inbox holds no
/// message of that ID yet, so that no file is overwritten; and the clock reading is a date.
pub open spec fn send_spec(args: SendArgs, env: Environment) -> Result<SendPlan, MailErrorView> {
    match resolve_spec(args.to@, lookup_spec(env.identities@, args.to@)) {
        Err(e) => Err(e),
        Ok((mailbox, to_name)) => {
            let sid = sender_id(args, env);
            let sender = display_name(sid, lookup_spec(env.identities@, sid));
            let subject = subject_of(args);
            if !header_ok(sender) {
                Err(MailErrorView::HeaderNewline { label: "From"@ })
            } else if !header_ok(to_name) {
                Err(MailErrorView::HeaderNewline { label: "To"@ })
            } else if args.reply_to matches Some(r) && !header_ok(r@) {
                Err(MailErrorView::HeaderNewline { label: "Reply-To"@ })
            } else if !header_ok(subject) {
                Err(MailErrorView::HeaderNewline { label: "Subject"@ })
            } else if args.in_reply_to matches Some(r) && !header_ok(r@) {
                Err(MailErrorView::HeaderNewline { label: "In-Reply-To"@ })
            } else {
                match body_spec(args, env) {
                    Err(e) => Err(e),
                    Ok(body) => if !component_ok(env.fresh_id@) {
                        Err(
                            MailErrorView::InvalidComponent {
                                label: "message ID"@,
                                value: env.fresh_id@,
                            },
                        )
                    } else if !header_ok(env.fresh_id@) {
                        Err(MailErrorView::HeaderNewline { label: "Message-ID"@ })
                    } else if recipient_holds(store_view(env.mailboxes@), mailbox, env.fresh_id@) {
                        Err(MailErrorView::MessageExists { id: env.fresh_id@ })
                    } else {
                        match utc_date_text(date_seconds(env)) {
                            None => Err(MailErrorView::DateOutOfRange),
                            Some(date) => Ok(
                                SendPlan {
                                    mailbox,
                                    to_name,
                                    sender,
                                    subject,
                                    date,
                                    message: message_text(
                                        sender,
                                        to_name,
                                        opt_arg(args.reply_to),
                                        date,
                                        env.fresh_id@,
                                        opt_arg(args.in_reply_to),
                                        subject,
                                        body,
                                    ),
                                },
                            ),
                        }
                    },
                }
            }
        },
    }
}

/// What `send` returns for given arguments and surroundings; and that a clock reading
/// before the end of year 9999 is written as the UTC date `utc_text` gives, of the shape
/// `YYYY-MM-DDTHH:MM:SSZ`.
pub open spec fn send_post(args: SendArgs, env: Environment, res: Result<Outcome, MailError>) -> bool {
    &&& date_seconds(env) < FOUR_DIGIT_YEARS_END ==> utc_date_text(date_seconds(env)) == Some(
        utc_text(date_seconds(env)),
    ) && date_shape(utc_text(date_seconds(env)))
    &&& match send_spec(args, env) {
        Err(e) => res matches Err(r) && r@ == e,
        Ok(p) => res matches Ok(out) && {
            &&& effects_view(out.effects@) == seq![
                EffectView::Deliver {
                    mailbox: p.mailbox,
                    file: message_file(env.fresh_id@),
                    contents: p.message,
                },
            ]
            &&& out.report matches Report::Sent(r) && r@.id == env.fresh_id@ && r@.recipient
                == p.mailbox && r@.sender == p.sender && r@.subject == p.subject && r@.timestamp
                == p.date && r@.mailbox == inbox_spec(env.root@, p.mailbox)
            &&& out.json == args.json
            &&& forall|i: int| 0 <= i < p.date.len() ==> date_char(#[trigger] p.date[i])
        },
    }
}

fn opt_as_str(value: &Option<String>) -> (out: Option<&str>)
    ensures
        match (value, out) {
            (Some(v), Some(o)) => v@ == o@,
            (None, None) => true,
            _ => false,
        },
{
    match value {
        Some(v) => Some(v.as_str()),
        None => None,
    }
}

/// Prepares a delivery: resolves the recipient and the sender, checks the headers, picks
/// the body, and writes the message under the fresh ID.
pub fn send(args: &SendArgs, env: &Environment) -> (res: Result<Outcome, MailError>)
    ensures
        send_post(*args, *env, res),
{
    let seconds: i64 = (env.now_ms / 1000) as i64;
    let date_opt = crate::message::date_text(seconds);
    let to_lookup = lookup(&env.identities, args.to.as_str());
    let recipient = match resolve_mailbox(args.to.as_str(), &to_lookup) {
        Ok(r) => r,
        Err(e) => return Err(e),
    };
    let sid = match &args.from {
        Some(f) => f.clone(),
        None => match &env.mail_id {
            Some(m) => m.clone(),
            None => owned("unknown"),
        },
    };
    let sender = match lookup(&env.identities, sid.as_str()) {
        Lookup::Found { slug, name } => found_name(&slug, &name),
        _ => sid,
    };
    let subject = match &args.subject {
        Some(s) => s.clone(),
        None => owned("(no subject)"),
    };
    let reply_to = opt_as_str(&args.reply_to);
    let in_reply_to = opt_as_str(&args.in_reply_to);
    match validate_header("From", sender.as_str()) {
        Ok(()) => {},
        Err(e) => return Err(e),
    }
    match validate_header("To", recipient.display.as_str()) {
        Ok(()) => {},
        Err(e) => return Err(e),
    }
    match validate_optional_header("Reply-To", reply_to) {
        Ok(()) => {},
        Err(e) => return Err(e),
    }
    match validate_header("Subject", subject.as_str()) {
        Ok(()) => {},
        Err(e) => return Err(e),
    }
    match validate_optional_header("In-Reply-To", in_reply_to) {
        Ok(()) => {},
        Err(e) => return Err(e),
    }
    let body: String = match &args.body {
        Some(b) => {
            if args.body_file.is_some() {
                return Err(MailError::ConflictingBody);
            }
            b.clone()
        },
        None => match &env.body {
            Some(b) => b.clone(),
            None => return Err(MailError::MissingBody),
        },
    };
    match validate_component(env.fresh_id.as_str(), "message ID") {
        Ok(()) => {},
        Err(e) => return Err(e),
    }
    match validate_header("Message-ID", env.fresh_id.as_str()) {
        Ok(()) => {},
        Err(e) => return Err(e),
    }
    match find_mailbox(&env.mailboxes, recipient.mailbox.as_str()) {
        Some(k) => {
            assert(store_view(env.mailboxes@)[k as int] == env.mailboxes@[k as int]@);
            if mailbox_holds(&env.mailboxes[k], env.fresh_id.as_str()) {
                return Err(MailError::MessageExists { id: env.fresh_id.clone() });
            }
        },
        None => {},
    }
    let message = match format_message(
        sender.as_str(),
        recipient.display.as_str(),
        reply_to,
        seconds,
        env.fresh_id.as_str(),
        in_reply_to,
        subject.as_str(),
        body.as_str(),
    ) {
        Ok(m) => m,
        Err(e) => return Err(e),
    };
    let date = match date_opt {
        Some(d) => d,
        None => return Err(MailError::DateOutOfRange),
    };
    let mailbox = inbox_path(env.root.as_str(), recipient.mailbox.as_str());
    let mut effects: Vec<Effect> = Vec::new();
    effects.push(
        Effect::Deliver {
            mailbox: recipient.mailbox.clone(),
            file: message_file_name(env.fresh_id.as_str()),
            contents: message,
        },
    );
    let report = Report::Sent(
        SentReceipt {
            id: env.fresh_id.clone(),
            recipient: recipient.mailbox,
            sender,
            subject,
            timestamp: date,
            mailbox,
        },
    );
    assert(effects_view(effects@) =~= seq![effects@[0]@]);
    Ok(Outcome { report, effects, json: args.json })
}


// ---------------------------------------------------------------------------
// scan

/// The names of the mailboxes of a store, in listing order.
pub open spec fn mailbox_names(store: Seq<MailboxView>) -> Seq<Seq<char>> {
    store.map_values(|m: MailboxView| m.name)
}

/// The mailboxes that `scan` lists: the recipient's with `--to`, every one (by name) with
/// `--all`; exactly one of the two is required.
pub open spec fn scan_targets(args: ScanArgs, env: Environment) -> Result<
    Seq<Seq<char>>,
    MailErrorView,
> {
    match args.to {
        Some(t) => if args.all {
            Err(MailErrorView::ScanTarget)
        } else {
            match resolve_spec(t@, lookup_spec(env.identities@, t@)) {
                Ok((m, _d)) => Ok(seq![m]),
                Err(e) => Err(e),
            }
        },
        None => if args.all {
            Ok(mailbox_names(store_view(env.mailboxes@)).sort_by(text_order()))
        } else {
            Err(MailErrorView::ScanTarget)
        },
    }
}

/// The names listed in `new` of the mailbox `name` (none if the store has no such
/// mailbox).
pub open spec fn new_listing(store: Seq<MailboxView>, name: Seq<char>) -> Seq<Seq<char>> {
    let k = mailbox_index(store, name);
    if k < store.len() {
        store[k].new
    } else {
        Seq::empty()
    }
}

/// The text read for a message file (the first one recorded).
pub open spec fn text_from(
    texts: Seq<MessageText>,
    mailbox: Seq<char>,
    file: Seq<char>,
    i: int,
) -> Option<Seq<char>>
    decreases texts.len() - i,
{
    if i < 0 || i >= texts.len() {
        None
    } else if texts[i].mailbox@ == mailbox && texts[i].file@ == file {
        Some(texts[i].text@)
    } else {
        text_from(texts, mailbox, file, i + 1)
    }
}

/// How `scan` lists one message file: by inbox, ID, `From` header (`unknown` if there is
/// none) and `Subject` header (empty if there is none).
pub open spec fn entry_spec(env: Environment, mailbox: Seq<char>, file: Seq<char>) -> Result<
    ScanEntryView,
    MailErrorView,
> {
    match text_from(env.texts@, mailbox, file, 0) {
        None => Err(
            MailErrorView::UnreadableMessage {
                path: join_spec(folder_spec(env.root@, mailbox, Folder::New), file),
            },
        ),
        Some(t) => Ok(
            ScanEntryView {
                mailbox: inbox_spec(env.root@, mailbox),
                id: message_stem(file),
                sender: match header_value(t, "From"@ + ": "@) {
                    Some(v) => v,
                    None => "unknown"@,
                },
                subject: match header_value(t, "Subject"@ + ": "@) {
                    Some(v) => v,
                    None => ""@,
                },
            },
        ),
    }
}

/// The listing of some message files of one mailbox, in order; the first file that
/// cannot be read fails it.
pub open spec fn file_entries(env: Environment, mailbox: Seq<char>, files: Seq<Seq<char>>) -> Result<
    Seq<ScanEntryView>,
    MailErrorView,
>
    decreases files.len(),
{
    if files.len() == 0 {
        Ok(Seq::empty())
    } else {
        match file_entries(env, mailbox, files.drop_last()) {
            Err(e) => Err(e),
            Ok(prev) => match entry_spec(env, mailbox, files.last()) {
                Err(e) => Err(e),
                Ok(x) => Ok(prev.push(x)),
            },
        }
    }
}

/// The unread messages of some mailboxes, mailbox after mailbox, each by file name.
pub open spec fn target_entries(env: Environment, targets: Seq<Seq<char>>) -> Result<
    Seq<ScanEntryView>,
    MailErrorView,
>
    decreases targets.len(),
{
    if targets.len() == 0 {
        Ok(Seq::empty())
    } else {
        match target_entries(env, targets.drop_last()) {
            Err(e) => Err(e),
            Ok(prev) => match file_entries(
                env,
                targets.last(),
                unread_files(new_listing(store_view(env.mailboxes@), targets.last())),
            ) {
                Err(e) => Err(e),
                Ok(more) => Ok(prev + more),
            },
        }
    }
}

/// The outcome of `scan`.
pub open spec fn scan_spec(args: ScanArgs, env: Environment) -> Result<
    Seq<ScanEntryView>,
    MailErrorView,
> {
    match scan_targets(args, env) {
        Err(e) => Err(e),
        Ok(ts) => target_entries(env, ts),
    }
}

/// What `scan` returns for given arguments and surroundings.
pub open spec fn scan_post(args: ScanArgs, env: Environment, res: Result<Outcome, MailError>) -> bool {
    match scan_spec(args, env) {
        Err(e) => res matches Err(r) && r@ == e,
        Ok(entries) => res matches Ok(out) && {
            &&& out.effects@.len() == 0
            &&& out.report matches Report::Unread(v) && entries_view(v@) == entries
            &&& out.json == args.json
        },
    }
}

/// The position of the mailbox named `name`, if the store has one.
pub fn find_mailbox(store: &Vec<Mailbox>, name: &str) -> (res: Option<usize>)
    ensures
        match res {
            Some(k) => k == mailbox_index(store_view(store@), name@) && k < store.len(),
            None => mailbox_index(store_view(store@), name@) >= store.len(),
        },
{
    let n = owned(name);
    let ghost s = store_view(store@);
    let mut i: usize = 0;
    while i < store.len()
        invariant
            i <= store.len(),
            n@ == name@,
            s == store_view(store@),
            mailbox_index(s, name@) == crate::store::index_from(s, name@, i as int),
        decreases store.len() - i,
    {
        assert(s[i as int].name == store@[i as int].name@);
        if store[i].name == n {
            return Some(i);
        }
        i = i + 1;
    }
    None
}

/// The text read for a message file.
pub fn text_for(texts: &Vec<MessageText>, mailbox: &str, file: &str) -> (out: Option<String>)
    ensures
        opt_view(out) == text_from(texts@, mailbox@, file@, 0),
{
    let m = owned(mailbox);
    let f = owned(file);
    let mut i: usize = 0;
    while i < texts.len()
        invariant
            i <= texts.len(),
            m@ == mailbox@,
            f@ == file@,
            text_from(texts@, mailbox@, file@, 0) == text_from(texts@, mailbox@, file@, i as int),
        decreases texts.len() - i,
    {
        if texts[i].mailbox == m && texts[i].file == f {
            return Some(texts[i].text.clone());
        }
        i = i + 1;
    }
    None
}

/// Lists one message file of a mailbox.
pub fn entry_for(env: &Environment, mailbox: &str, file: &str) -> (res: Result<ScanEntry, MailError>)
    ensures
        match entry_spec(*env, mailbox@, file@) {
            Ok(x) => res matches Ok(r) && r@ == x,
            Err(e) => res matches Err(r) && r@ == e,
        },
{
    match text_for(&env.texts, mailbox, file) {
        None => {
            let dir = folder_path(env.root.as_str(), mailbox, Folder::New);
            Err(MailError::UnreadableMessage { path: join_path(dir.as_str(), file) })
        },
        Some(t) => {
            let sender = match message_header(t.as_str(), "From") {
                Some(v) => v,
                None => owned("unknown"),
            };
            let subject = match message_header(t.as_str(), "Subject") {
                Some(v) => v,
                None => owned(""),
            };
            Ok(
                ScanEntry {
                    mailbox: inbox_path(env.root.as_str(), mailbox),
                    id: message_id_of_file(file),
                    sender,
                    subject,
                },
            )
        },
    }
}


proof fn lemma_file_entries_error_persists(
    env: Environment,
    mailbox: Seq<char>,
    s: Seq<Seq<char>>,
    j: int,
)
    requires
        0 <= j <= s.len(),
        file_entries(env, mailbox, s.take(j)) is Err,
    ensures
        file_entries(env, mailbox, s) == file_entries(env, mailbox, s.take(j)),
    decreases s.len() - j,
{
    if j < s.len() {
        let t = s.take(j + 1);
        assert(t.drop_last() =~= s.take(j));
        assert(t.take(j) =~= s.take(j));
        lemma_file_entries_error_persists(env, mailbox, s, j + 1);
    } else {
        assert(s.take(j) =~= s);
    }
}

proof fn lemma_target_entries_error_persists(env: Environment, s: Seq<Seq<char>>, j: int)
    requires
        0 <= j <= s.len(),
        target_entries(env, s.take(j)) is Err,
    ensures
        target_entries(env, s) == target_entries(env, s.take(j)),
    decreases s.len() - j,
{
    if j < s.len() {
        let t = s.take(j + 1);
        assert(t.drop_last() =~= s.take(j));
        lemma_target_entries_error_persists(env, s, j + 1);
    } else {
        assert(s.take(j) =~= s);
    }
}

/// Lists the unread messages of one mailbox, by file name.
pub fn mailbox_entries(env: &Environment, mailbox: &str) -> (res: Result<Vec<ScanEntry>, MailError>)
    ensures
        match file_entries(
            *env,
            mailbox@,
            unread_files(new_listing(store_view(env.mailboxes@), mailbox@)),
        ) {
            Ok(x) => res matches Ok(r) && entries_view(r@) == x,
            Err(e) => res matches Err(r) && r@ == e,
        },
{
    let empty: Vec<String> = Vec::new();
    let listing: &Vec<String> = match find_mailbox(&env.mailboxes, mailbox) {
        Some(k) => &env.mailboxes[k].new,
        None => &empty,
    };
    assert(texts(listing@) == new_listing(store_view(env.mailboxes@), mailbox@));
    let files = sort_texts(&message_files(listing));
    let ghost fs = texts(files@);
    let mut out: Vec<ScanEntry> = Vec::new();
    let mut i: usize = 0;
    assert(fs.take(0) =~= Seq::<Seq<char>>::empty());
    assert(entries_view(out@) =~= Seq::<ScanEntryView>::empty());
    while i < files.len()
        invariant
            i <= files.len(),
            fs == texts(files@),
            fs == unread_files(new_listing(store_view(env.mailboxes@), mailbox@)),
            out.len() == i,
            file_entries(*env, mailbox@, fs.take(i as int)) == Ok::<
                Seq<ScanEntryView>,
                MailErrorView,
            >(entries_view(out@)),
        decreases files.len() - i,
    {
        assert(fs.take(i + 1).drop_last() =~= fs.take(i as int));
        assert(fs.take(i + 1).last() == files@[i as int]@);
        let ghost prev = entries_view(out@);
        match entry_for(env, mailbox, files[i].as_str()) {
            Ok(x) => {
                out.push(x);
                assert(entries_view(out@) =~= prev.push(out@[i as int]@));
            },
            Err(e) => {
                proof {
                    lemma_file_entries_error_persists(*env, mailbox@, fs, i + 1);
                }
                return Err(e);
            },
        }
        i = i + 1;
    }
    assert(fs.take(files.len() as int) =~= fs);
    Ok(out)
}

/// Lists the unread messages of some mailboxes, mailbox after mailbox.
fn targets_entries(env: &Environment, targets: &Vec<String>) -> (res: Result<
    Vec<ScanEntry>,
    MailError,
>)
    ensures
        match target_entries(*env, texts(targets@)) {
            Ok(x) => res matches Ok(r) && entries_view(r@) == x,
            Err(e) => res matches Err(r) && r@ == e,
        },
{
    let ghost ts = texts(targets@);
    let mut out: Vec<ScanEntry> = Vec::new();
    let mut i: usize = 0;
    assert(ts.take(0) =~= Seq::<Seq<char>>::empty());
    assert(entries_view(out@) =~= Seq::<ScanEntryView>::empty());
    while i < targets.len()
        invariant
            i <= targets.len(),
            ts == texts(targets@),
            target_entries(*env, ts.take(i as int)) == Ok::<Seq<ScanEntryView>, MailErrorView>(
                entries_view(out@),
            ),
        decreases targets.len() - i,
    {
        assert(ts.take(i + 1).drop_last() =~= ts.take(i as int));
        assert(ts.take(i + 1).last() == targets@[i as int]@);
        let ghost prev = entries_view(out@);
        match mailbox_entries(env, targets[i].as_str()) {
            Ok(more) => {
                let ghost mv = entries_view(more@);
                let mut more = more;
                out.append(&mut more);
                assert(entries_view(out@) =~= prev + mv);
            },
            Err(e) => {
                proof {
                    lemma_target_entries_error_persists(*env, ts, i + 1);
                }
                return Err(e);
            },
        }
        i = i + 1;
    }
    assert(ts.take(targets.len() as int) =~= ts);
    Ok(out)
}

/// Lists unread messages, for one recipient or for every mailbox.
pub fn scan(args: &ScanArgs, env: &Environment) -> (res: Result<Outcome, MailError>)
    ensures
        scan_post(*args, *env, res),
{
    let mut targets: Vec<String> = Vec::new();
    match &args.to {
        Some(t) => {
            if args.all {
                return Err(MailError::ScanTarget);
            }
            let l = lookup(&env.identities, t.as_str());
            match resolve_mailbox(t.as_str(), &l) {
                Ok(r) => targets.push(r.mailbox),
                Err(e) => return Err(e),
            }
            assert(texts(targets@) =~= seq![targets@[0]@]);
        },
        None => {
            if !args.all {
                return Err(MailError::ScanTarget);
            }
            let mut names: Vec<String> = Vec::new();
            let mut i: usize = 0;
            while i < env.mailboxes.len()
                invariant
                    i <= env.mailboxes.len(),
                    names.len() == i,
                    texts(names@) == mailbox_names(store_view(env.mailboxes@)).take(i as int),
                decreases env.mailboxes.len() - i,
            {
                let ghost prev = texts(names@);
                names.push(env.mailboxes[i].name.clone());
                assert(store_view(env.mailboxes@)[i as int].name == env.mailboxes@[i as int].name@);
                assert(texts(names@) =~= prev.push(env.mailboxes@[i as int].name@));
                assert(texts(names@) =~= mailbox_names(store_view(env.mailboxes@)).take(i + 1));
                i = i + 1;
            }
            assert(mailbox_names(store_view(env.mailboxes@)).take(env.mailboxes.len() as int)
                =~= mailbox_names(store_view(env.mailboxes@)));
            targets = sort_texts(&names);
        },
    }
    match targets_entries(env, &targets) {
        Ok(entries) => Ok(
            Outcome { report: Report::Unread(entries), effects: Vec::new(), json: args.json },
        ),
        Err(e) => Err(e),
    }
}


// ---------------------------------------------------------------------------
// addr

/// What `addr` returns: the recipient's mailbox and inbox directory; nothing is created.
pub open spec fn addr_post(args: AddrArgs, env: Environment, res: Result<Outcome, MailError>) -> bool {
    match resolve_spec(args.recipient@, lookup_spec(env.identities@, args.recipient@)) {
        Err(e) => res matches Err(r) && r@ == e,
        Ok((m, _d)) => res matches Ok(out) && {
            &&& out.effects@.len() == 0
            &&& out.report matches Report::Address { recipient, mailbox } && recipient@ == m
                && mailbox@ == inbox_spec(env.root@, m)
            &&& out.json == args.json
        },
    }
}

/// Resolves a recipient to its inbox directory without creating it.
pub fn addr(args: &AddrArgs, env: &Environment) -> (res: Result<Outcome, MailError>)
    ensures
        addr_post(*args, *env, res),
{
    let l = lookup(&env.identities, args.recipient.as_str());
    match resolve_mailbox(args.recipient.as_str(), &l) {
        Ok(r) => {
            let mailbox = inbox_path(env.root.as_str(), r.mailbox.as_str());
            Ok(
                Outcome {
                    report: Report::Address { recipient: r.mailbox, mailbox },
                    effects: Vec::new(),
                    json: args.json,
                },
            )
        },
        Err(e) => Err(e),
    }
}

// ---------------------------------------------------------------------------
// read

/// The move that files a message of a mailbox from one folder into another.
pub open spec fn move_of(mailbox: Seq<char>, id: Seq<char>, from: Folder, to: Folder) -> EffectView {
    EffectView::Move { mailbox, file: message_file(id), from, to }
}

/// The outcome of `read`: the first inbox that holds the message in `new` or `cur` gives
/// the file to print, its `new` copy where it has one, and the move of that unread copy
/// to `cur` unless `--peek` is given. A message that no inbox holds, or that was
/// discarded, is refused.
pub open spec fn read_spec(args: ReadArgs, env: Environment) -> Result<
    (Seq<char>, Seq<EffectView>),
    MailErrorView,
> {
    match normalized_id(args.message_id@) {
        Err(e) => Err(e),
        Ok(id) => {
            let store = store_view(env.mailboxes@);
            match status(store, id) {
                Some((k, d)) => if d == Delivery::Discarded {
                    Err(MailErrorView::NoMessage { id })
                } else if store[k].new.contains(message_file(id)) {
                    Ok(
                        (
                            join_spec(
                                folder_spec(env.root@, store[k].name, Folder::New),
                                message_file(id),
                            ),
                            if args.peek {
                                Seq::empty()
                            } else {
                                seq![move_of(store[k].name, id, Folder::New, Folder::Cur)]
                            },
                        ),
                    )
                } else {
                    Ok(
                        (
                            join_spec(
                                folder_spec(env.root@, store[k].name, Folder::Cur),
                                message_file(id),
                            ),
                            Seq::empty(),
                        ),
                    )
                },
                None => Err(MailErrorView::NoMessage { id }),
            }
        },
    }
}

/// What `read` returns for given arguments and surroundings.
pub open spec fn read_post(args: ReadArgs, env: Environment, res: Result<Outcome, MailError>) -> bool {
    match read_spec(args, env) {
        Err(e) => res matches Err(r) && r@ == e,
        Ok((path, effects)) => res matches Ok(out) && {
            &&& effects_view(out.effects@) == effects
            &&& out.report matches Report::Message { path: p } && p@ == path
            &&& !out.json
        },
    }
}

fn one_move(mailbox: &String, id: &str, from: Folder, to: Folder) -> (out: Vec<Effect>)
    ensures
        effects_view(out@) == seq![move_of(mailbox@, id@, from, to)],
{
    let mut out: Vec<Effect> = Vec::new();
    out.push(Effect::Move { mailbox: mailbox.clone(), file: message_file_name(id), from, to });
    assert(effects_view(out@) =~= seq![move_of(mailbox@, id@, from, to)]);
    out
}

/// Finds a message to print and, unless `peek`, marks an unread message read.
pub fn read(args: &ReadArgs, env: &Environment) -> (res: Result<Outcome, MailError>)
    ensures
        read_post(*args, *env, res),
{
    let id = match normalize_message_id(args.message_id.as_str()) {
        Ok(id) => id,
        Err(e) => return Err(e),
    };
    let ghost store = store_view(env.mailboxes@);
    match locate(&env.mailboxes, id.as_str()) {
        Some((k, d)) => {
            if let Delivery::Discarded = d {
                return Err(MailError::NoMessage { id });
            }
            let m = &env.mailboxes[k];
            assert(store[k as int].name == m.name@);
            assert(store[k as int].new == texts(m.new@));
            assert(store[k as int].cur == texts(m.cur@));
            let inbox = inbox_path(env.root.as_str(), m.name.as_str());
            let found = find_message(
                inbox.as_str(),
                Some(args.message_id.as_str()),
                &m.new,
                &m.cur,
            );
            match found {
                Ok(Some(path)) => {
                    let file = message_file_name(id.as_str());
                    let effects = if !args.peek && contains_text(&m.new, &file) {
                        one_move(&m.name, id.as_str(), Folder::New, Folder::Cur)
                    } else {
                        let e: Vec<Effect> = Vec::new();
                        assert(effects_view(e@) =~= Seq::<EffectView>::empty());
                        e
                    };
                    Ok(Outcome { report: Report::Message { path }, effects, json: false })
                },
                _ => Err(MailError::NoMessage { id }),
            }
        },
        None => Err(MailError::NoMessage { id }),
    }
}

// ---------------------------------------------------------------------------
// receipt

/// The value of one character in the Crockford base-32 alphabet that ULIDs are written
/// in: digits, then the letters other than I, L, O and U, in either case.
pub open spec fn crockford_digit(c: char) -> Option<u128> {
    if '0' <= c && c <= '9' {
        Some((c as u32 - '0' as u32) as u128)
    } else {
        let u = if 'a' <= c && c <= 'z' {
            (c as u32 - 32) as u32
        } else {
            c as u32
        };
        if 'A' as u32 <= u && u <= 'H' as u32 {
            Some((u - 'A' as u32 + 10) as u128)
        } else if u == 'J' as u32 || u == 'K' as u32 {
            Some((u - 'J' as u32 + 18) as u128)
        } else if u == 'M' as u32 || u == 'N' as u32 {
            Some((u - 'M' as u32 + 20) as u128)
        } else if 'P' as u32 <= u && u <= 'T' as u32 {
            Some((u - 'P' as u32 + 22) as u128)
        } else if 'V' as u32 <= u && u <= 'Z' as u32 {
            Some((u - 'V' as u32 + 27) as u128)
        } else {
            None
        }
    }
}

/// The number that a text of Crockford base-32 digits writes, most significant digit
/// first, kept to 128 bits as a `u128` shifted left by five bits per digit keeps it;
/// `None` if a character is not a digit.
pub open spec fn crockford_value(s: Seq<char>) -> Option<u128>
    decreases s.len(),
{
    if s.len() == 0 {
        Some(0)
    } else {
        match (crockford_value(s.drop_last()), crockford_digit(s.last())) {
            (Some(v), Some(d)) => Some((v << 5u128) | d),
            _ => None,
        }
    }
}

/// What `ulid::Ulid::from_string` decodes from a text: the value of its 26 Crockford
/// base-32 digits, or `None` where the text is not 26 such digits.
pub open spec fn ulid_value(id: Seq<char>) -> Option<u128> {
    if id.len() == 26 {
        crockford_value(id)
    } else {
        None
    }
}

/// Calls `ulid::Ulid::from_string(id)` and takes the decoded value (the `Ulid`'s public
/// field). The crate's `base32::decode` refuses a text whose byte length is not 26 and any
/// byte outside its lookup table (which holds the ASCII digits and letters of the
/// alphabet only), and otherwise folds `value = (value << 5) | digit` over the bytes.
#[verifier::external_body]
fn ulid_decode(id: &str) -> (out: Option<u128>)
    ensures
        out == ulid_value(id@),
{
    match ulid::Ulid::from_string(id) {
        Ok(value) => Some(value.0),
        Err(_) => None,
    }
}

/// A character that ULIDs are written with: a digit or an upper-case letter other than I,
/// L, O and U.
pub open spec fn ulid_char(c: char) -> bool {
    ('0' <= c && c <= '9') || ('A' <= c && c <= 'Z' && c != 'I' && c != 'L' && c != 'O' && c
        != 'U')
}

/// Calls `ulid::Ulid::new()` and writes it with `Ulid::to_string`. The ULID depends on the
/// time and on chance, so the contract states only what holds of every outcome: the text
/// is 26 characters of the crate's alphabet (`base32::encode` writes each five bits with
/// one character of `0123456789ABCDEFGHJKMNPQRSTVWXYZ`).
#[verifier::external_body]
fn ulid_text() -> (id: String)
    ensures
        id@.len() == 26,
        forall|i: int| 0 <= i < id@.len() ==> ulid_char(#[trigger] id@[i]),
{
    ulid::Ulid::new().to_string()
}

proof fn lemma_ulid_chars_decode(s: Seq<char>)
    requires
        forall|i: int| 0 <= i < s.len() ==> ulid_char(#[trigger] s[i]),
    ensures
        crockford_value(s) is Some,
    decreases s.len(),
{
    if s.len() > 0 {
        lemma_ulid_chars_decode(s.drop_last());
        assert(ulid_char(s[s.len() - 1]));
    }
}

/// A fresh message ID: a new ULID. Whatever its time and random part, it decodes as a ULID,
/// names a file, can stand in a header, and does not end in `.md`.
pub fn new_message_id() -> (id: String)
    ensures
        id@.len() == 26,
        ulid_value(id@) is Some,
        component_ok(id@),
        header_ok(id@),
        !".md"@.is_suffix_of(id@),
{
    let id = ulid_text();
    proof {
        lemma_ulid_chars_decode(id@);
        reveal_strlit(".md");
        assert(ulid_char(id@[0]));
        assert(id@ != seq!['.']);
        assert(id@ != seq!['.', '.']);
        if id@.contains('/') {
            let i = choose|i: int| 0 <= i < id@.len() && id@[i] == '/';
            assert(ulid_char(id@[i]));
        }
        if id@.contains('\0') {
            let i = choose|i: int| 0 <= i < id@.len() && id@[i] == '\0';
            assert(ulid_char(id@[i]));
        }
        if id@.contains('\r') {
            let i = choose|i: int| 0 <= i < id@.len() && id@[i] == '\r';
            assert(ulid_char(id@[i]));
        }
        if id@.contains('\n') {
            let i = choose|i: int| 0 <= i < id@.len() && id@[i] == '\n';
            assert(ulid_char(id@[i]));
        }
        assert(ulid_char(id@[25]));
        if ".md"@.is_suffix_of(id@) {
            assert(id@.subrange(23, 26)[2] == 'd');
        }
    }
    id
}

/// The milliseconds since the Unix epoch that a ULID carries: its top 48 bits, as
/// `Ulid::timestamp_ms` reads them.
pub open spec fn ulid_millis(id: Seq<char>) -> Option<u64> {
    match ulid_value(id) {
        Some(v) => Some((v >> 80u128) as u64),
        None => None,
    }
}

/// The time a ULID carries, as `ulid_millis` describes.
fn ulid_timestamp(id: &str) -> (out: Option<u64>)
    ensures
        out == ulid_millis(id@),
{
    match ulid_decode(id) {
        Some(v) => {
            assert(v >> 80u128 <= 0xffff_ffff_ffff) by (bit_vector);
            Some((v >> 80u128) as u64)
        },
        None => None,
    }
}

/// The number of characters of `s` before its first `-` (all of them if none).
pub open spec fn dash_len(s: Seq<char>) -> nat
    decreases s.len(),
{
    if s.len() == 0 || s[0] == '-' {
        0
    } else {
        1 + dash_len(s.drop_first())
    }
}

/// When a message was delivered: the date of its ULID, else the part of the ID before
/// the first `-`.
pub open spec fn delivered_text(id: Seq<char>) -> Seq<char> {
    let fallback = id.take(dash_len(id) as int);
    match ulid_millis(id) {
        Some(ms) => match utc_date_text((ms / 1000) as int) {
            Some(t) => t,
            None => fallback,
        },
        None => fallback,
    }
}

/// What `chrono::NaiveDateTime::parse_from_str(prefix, "%Y%m%dT%H%M%SZ")` gives, as Unix
/// seconds in UTC, for the leading part of an older message ID (`None` where it does not
/// parse).
pub uninterp spec fn legacy_id_seconds(prefix: Seq<char>) -> Option<i64>;

/// Calls `chrono::NaiveDateTime::parse_from_str(prefix, "%Y%m%dT%H%M%SZ")` and, where it
/// parses, `and_utc().timestamp()`. The contract only names the result, a function of the
/// text alone.
#[verifier::external_body]
fn legacy_timestamp(prefix: &str) -> (out: Option<i64>)
    ensures
        out == legacy_id_seconds(prefix@),
{
    match chrono::NaiveDateTime::parse_from_str(prefix, "%Y%m%dT%H%M%SZ") {
        Ok(date) => Some(date.and_utc().timestamp()),
        Err(_) => None,
    }
}

/// The recorded age of a message file (the first record), or 0 if none was recorded.
pub open spec fn recorded_age(
    ages: Seq<FileAge>,
    mailbox: Seq<char>,
    folder: Folder,
    file: Seq<char>,
    i: int,
) -> u64
    decreases ages.len() - i,
{
    if i < 0 || i >= ages.len() {
        0
    } else if ages[i].mailbox@ == mailbox && ages[i].folder == folder && ages[i].file@ == file {
        ages[i].hours
    } else {
        recorded_age(ages, mailbox, folder, file, i + 1)
    }
}

/// Whole hours from an instant, given in milliseconds, to now; 0 for an instant that is
/// not in the past.
pub open spec fn hours_since(now_ms: u64, then_ms: int) -> u64 {
    if now_ms >= then_ms {
        ((now_ms - then_ms) / 3_600_000) as u64
    } else {
        0
    }
}

/// How many whole hours ago a message was delivered: by the time written at the start of
/// an older ID (the part before its first `-`), where that part parses as one; else by the
/// age of its file in the given folder of the mailbox.
pub open spec fn age_hours(env: Environment, id: Seq<char>, mailbox: Seq<char>, folder: Folder) -> u64 {
    match legacy_id_seconds(id.take(dash_len(id) as int)) {
        Some(secs) => hours_since(env.now_ms, secs * 1000),
        None => recorded_age(env.ages@, mailbox, folder, message_file(id), 0),
    }
}

/// The folder whose file a receipt describes: `cur` for a read message, `new` for an
/// unread one, and for a discarded one `.Trash/new` where it is there, else `.Trash/cur`.
pub open spec fn state_folder(m: MailboxView, id: Seq<char>, d: Delivery) -> Folder {
    match d {
        Delivery::Read => Folder::Cur,
        Delivery::Unread => Folder::New,
        Delivery::Discarded => if m.trash_new.contains(message_file(id)) {
            Folder::TrashNew
        } else {
            Folder::TrashCur
        },
    }
}

/// The outcome of `receipt`: the state of the message in the first inbox that holds it.
pub open spec fn receipt_spec(args: ReceiptArgs, env: Environment) -> Result<
    ReceiptView,
    MailErrorView,
> {
    match normalized_id(args.message_id@) {
        Err(e) => Err(e),
        Ok(id) => {
            let store = store_view(env.mailboxes@);
            match status(store, id) {
                None => Err(MailErrorView::UnknownMessage { id }),
                Some((k, d)) => Ok(
                    ReceiptView {
                        state: d,
                        id,
                        recipient: store[k].name,
                        delivered_at: delivered_text(id),
                        age_hours: age_hours(env, id, store[k].name, state_folder(store[k], id, d)),
                    },
                ),
            }
        },
    }
}

/// What `receipt` returns for given arguments and surroundings.
pub open spec fn receipt_post(args: ReceiptArgs, env: Environment, res: Result<Outcome, MailError>) -> bool {
    match receipt_spec(args, env) {
        Err(e) => res matches Err(r) && r@ == e,
        Ok(x) => res matches Ok(out) && {
            &&& out.effects@.len() == 0
            &&& out.report matches Report::Receipt(r) && r@ == x
            &&& out.json == args.json
        },
    }
}

/// When the message `id` was delivered, as `delivered_text` describes.
pub fn delivered_at(id: &str) -> (out: String)
    ensures
        out@ == delivered_text(id@),
{
    let fallback = dash_prefix(id);
    match ulid_timestamp(id) {
        Some(ms) => match crate::message::date_text((ms / 1000) as i64) {
            Some(t) => t,
            None => fallback,
        },
        None => fallback,
    }
}

fn dash_prefix(id: &str) -> (out: String)
    ensures
        out@ == id@.take(dash_len(id@) as int),
{
    let cs = crate::text::chars_of(id);
    let mut n: usize = 0;
    assert(id@.skip(0) =~= id@);
    while n < cs.len() && cs[n] != '-'
        invariant
            n <= cs.len(),
            cs@ == id@,
            dash_len(id@) == n + dash_len(id@.skip(n as int)),
        decreases cs.len() - n,
    {
        assert(id@.skip(n as int).drop_first() =~= id@.skip(n + 1));
        n = n + 1;
    }
    assert(dash_len(id@.skip(n as int)) == 0);
    owned(id.substring_char(0, n))
}

fn hours_between(now_ms: u64, then_ms: i128) -> (out: u64)
    requires
        -0x1_0000_0000_0000_0000_0000 <= then_ms,
    ensures
        out == hours_since(now_ms, then_ms as int),
{
    let now: i128 = now_ms as i128;
    if now >= then_ms {
        let d: i128 = now - then_ms;
        assert(d / 3_600_000 <= 0x1_0000_0000_0000_0000) by (nonlinear_arith)
            requires
                0 <= d <= 0x1_0000_0000_0000_0000_0000 + 0x1_0000_0000_0000_0000,
        ;
        assert(d / 3_600_000 < 0x1_0000_0000_0000_0000);
        (d / 3_600_000) as u64
    } else {
        0
    }
}

fn same_folder(a: Folder, b: Folder) -> (yes: bool)
    ensures
        yes == (a == b),
{
    match (a, b) {
        (Folder::New, Folder::New) => true,
        (Folder::Cur, Folder::Cur) => true,
        (Folder::TrashNew, Folder::TrashNew) => true,
        (Folder::TrashCur, Folder::TrashCur) => true,
        _ => false,
    }
}

fn age_record(ages: &Vec<FileAge>, mailbox: &str, folder: Folder, file: &String) -> (out: u64)
    ensures
        out == recorded_age(ages@, mailbox@, folder, file@, 0),
{
    let m = owned(mailbox);
    let mut i: usize = 0;
    while i < ages.len()
        invariant
            i <= ages.len(),
            m@ == mailbox@,
            recorded_age(ages@, mailbox@, folder, file@, 0) == recorded_age(
                ages@,
                mailbox@,
                folder,
                file@,
                i as int,
            ),
        decreases ages.len() - i,
    {
        if ages[i].mailbox == m && same_folder(ages[i].folder, folder) && ages[i].file == *file {
            return ages[i].hours;
        }
        i = i + 1;
    }
    0
}

/// How many whole hours ago the message `id`, in the given folder of `mailbox`, was
/// delivered, as `age_hours` describes.
pub fn age_hours_of(env: &Environment, id: &str, mailbox: &str, folder: Folder) -> (out: u64)
    ensures
        out == age_hours(*env, id@, mailbox@, folder),
{
    let prefix = dash_prefix(id);
    match legacy_timestamp(prefix.as_str()) {
        Some(secs) => hours_between(env.now_ms, (secs as i128) * 1000),
        None => age_record(&env.ages, mailbox, folder, &message_file_name(id)),
    }
}

/// Reports whether a message is unread, read or discarded, and where it was delivered.
pub fn receipt(args: &ReceiptArgs, env: &Environment) -> (res: Result<Outcome, MailError>)
    ensures
        receipt_post(*args, *env, res),
{
    let id = match normalize_message_id(args.message_id.as_str()) {
        Ok(id) => id,
        Err(e) => return Err(e),
    };
    let ghost store = store_view(env.mailboxes@);
    match locate(&env.mailboxes, id.as_str()) {
        None => Err(MailError::UnknownMessage { id }),
        Some((k, d)) => {
            let m = &env.mailboxes[k];
            assert(store[k as int].name == m.name@);
            assert(store[k as int].trash_new == texts(m.trash_new@));
            let folder = match d {
                Delivery::Read => Folder::Cur,
                Delivery::Unread => Folder::New,
                Delivery::Discarded => if contains_text(&m.trash_new, &message_file_name(id.as_str())) {
                    Folder::TrashNew
                } else {
                    Folder::TrashCur
                },
            };
            let delivered = delivered_at(id.as_str());
            let age = age_hours_of(env, id.as_str(), m.name.as_str(), folder);
            let r = Receipt {
                state: d,
                id,
                recipient: env.mailboxes[k].name.clone(),
                delivered_at: delivered,
                age_hours: age,
            };
            Ok(Outcome { report: Report::Receipt(r), effects: Vec::new(), json: args.json })
        },
    }
}

// ---------------------------------------------------------------------------
// discard

/// The outcome of `discard`: an unread message moves to `.Trash/new`, a read one to
/// `.Trash/cur`; a discarded one stays, and an ID that no inbox holds changes nothing.
pub open spec fn discard_spec(args: DiscardArgs, env: Environment) -> Result<
    (Seq<char>, Option<Seq<char>>, Seq<EffectView>),
    MailErrorView,
> {
    match normalized_id(args.message_id@) {
        Err(e) => Err(e),
        Ok(id) => {
            let store = store_view(env.mailboxes@);
            match status(store, id) {
                None => Ok((id, None, Seq::empty())),
                Some((k, Delivery::Unread)) => Ok(
                    (
                        id,
                        Some(store[k].name),
                        seq![move_of(store[k].name, id, Folder::New, Folder::TrashNew)],
                    ),
                ),
                Some((k, Delivery::Read)) => Ok(
                    (
                        id,
                        Some(store[k].name),
                        seq![move_of(store[k].name, id, Folder::Cur, Folder::TrashCur)],
                    ),
                ),
                Some((k, Delivery::Discarded)) => Ok((id, Some(store[k].name), Seq::empty())),
            }
        },
    }
}

/// What `discard` returns for given arguments and surroundings.
pub open spec fn discard_post(args: DiscardArgs, env: Environment, res: Result<Outcome, MailError>) -> bool {
    match discard_spec(args, env) {
        Err(e) => res matches Err(r) && r@ == e,
        Ok((id, recipient, effects)) => res matches Ok(out) && {
            &&& effects_view(out.effects@) == effects
            &&& out.report matches Report::Discarded { id: i, held_by: r } && i@ == id
                && opt_view(r) == recipient
            &&& !out.json
        },
    }
}

/// Moves a message into the inbox's `.Trash` folder, keeping its read state.
pub fn discard(args: &DiscardArgs, env: &Environment) -> (res: Result<Outcome, MailError>)
    ensures
        discard_post(*args, *env, res),
{
    let id = match normalize_message_id(args.message_id.as_str()) {
        Ok(id) => id,
        Err(e) => return Err(e),
    };
    let ghost store = store_view(env.mailboxes@);
    match locate(&env.mailboxes, id.as_str()) {
        None => {
            let e: Vec<Effect> = Vec::new();
            assert(effects_view(e@) =~= Seq::<EffectView>::empty());
            Ok(Outcome { report: Report::Discarded { id, held_by: None }, effects: e, json: false })
        },
        Some((k, d)) => {
            let m = &env.mailboxes[k];
            assert(store[k as int].name == m.name@);
            let effects = match d {
                Delivery::Unread => one_move(&m.name, id.as_str(), Folder::New, Folder::TrashNew),
                Delivery::Read => one_move(&m.name, id.as_str(), Folder::Cur, Folder::TrashCur),
                Delivery::Discarded => {
                    let e: Vec<Effect> = Vec::new();
                    assert(effects_view(e@) =~= Seq::<EffectView>::empty());
                    e
                },
            };
            Ok(
                Outcome {
                    report: Report::Discarded { id, held_by: Some(m.name.clone()) },
                    effects,
                    json: false,
                },
            )
        },
    }
}

// ---------------------------------------------------------------------------
// dispatch

/// Runs one command against what the caller gathered: the report to print and the
/// changes to carry out, or why the command is refused.
pub fn run(cli: &Cli, env: &Environment) -> (res: Result<Outcome, MailError>)
    ensures
        match cli.command {
            Commands::Send(a) => send_post(a, *env, res),
            Commands::Scan(a) => scan_post(a, *env, res),
            Commands::Addr(a) => addr_post(a, *env, res),
            Commands::Read(a) => read_post(a, *env, res),
            Commands::Discard(a) => discard_post(a, *env, res),
            Commands::Receipt(a) => receipt_post(a, *env, res),
            Commands::Prime(a) => crate::prime::prime_post(a, res),
        },
{
    match &cli.command {
        Commands::Send(a) => send(a, env),
        Commands::Scan(a) => scan(a, env),
        Commands::Addr(a) => addr(a, env),
        Commands::Read(a) => read(a, env),
        Commands::Discard(a) => discard(a, env),
        Commands::Receipt(a) => receipt(a, env),
        Commands::Prime(a) => crate::prime::execute(a),
    }
}

} // verus!
