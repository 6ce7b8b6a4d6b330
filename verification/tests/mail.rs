use agent_mail::cli::{
    AddrArgs, Cli, Commands, DiscardArgs, PrimeArgs, ReadArgs, ReceiptArgs, ScanArgs, SendArgs,
};
use agent_mail::error::MailError;
use agent_mail::mail::{run, resolve_inbox, Environment, Identity, Lookup, MessageText};
use agent_mail::maildir::{folder_path, Folder};
use agent_mail::message::format_message;
use agent_mail::render::render_text;
use agent_mail::report::{Outcome, Report};
use agent_mail::store::{Delivery, Effect, Mailbox};
use chrono::{TimeZone, Utc};
use ulid::Ulid;

/// An in-memory mail root that carries out the effects a command returns.
struct World {
    env: Environment,
    /// The message files on disk, by path, with their contents.
    files: Vec<(String, String)>,
    /// What the last command printed of a message file.
    printed: Option<String>,
}

impl World {
    fn new(root: &str) -> World {
        World {
            env: Environment {
                root: root.to_string(),
                mail_id: None,
                identities: Vec::new(),
                body: None,
                fresh_id: Ulid::new().to_string(),
                now_ms: 1_787_169_600_000,
                mailboxes: Vec::new(),
                texts: Vec::new(),
                ages: Vec::new(),
            },
            files: Vec::new(),
            printed: None,
        }
    }

    fn path(&self, mailbox: &str, folder: Folder, file: &str) -> String {
        format!("{}/{}", folder_path(&self.env.root, mailbox, folder), file)
    }

    fn contents(&self, path: &str) -> Option<String> {
        self.files.iter().find(|(p, _)| p == path).map(|(_, c)| c.clone())
    }

    fn folder<'a>(m: &'a mut Mailbox, f: Folder) -> &'a mut Vec<String> {
        match f {
            Folder::New => &mut m.new,
            Folder::Cur => &mut m.cur,
            Folder::TrashNew => &mut m.trash_new,
            Folder::TrashCur => &mut m.trash_cur,
        }
    }

    fn apply(&mut self, out: &Outcome) {
        for e in &out.effects {
            match e {
                Effect::Deliver { mailbox, file, contents } => {
                    match self.env.mailboxes.iter_mut().find(|m| &m.name == mailbox) {
                        Some(m) => m.new.push(file.clone()),
                        None => self.env.mailboxes.push(Mailbox {
                            name: mailbox.clone(),
                            new: vec![file.clone()],
                            cur: Vec::new(),
                            trash_new: Vec::new(),
                            trash_cur: Vec::new(),
                        }),
                    }
                    self.env.texts.push(MessageText {
                        mailbox: mailbox.clone(),
                        file: file.clone(),
                        text: contents.clone(),
                    });
                    let path = self.path(mailbox, Folder::New, file);
                    self.files.push((path, contents.clone()));
                }
                Effect::Move { mailbox, file, from, to } => {
                    let m = self
                        .env
                        .mailboxes
                        .iter_mut()
                        .find(|m| &m.name == mailbox)
                        .unwrap();
                    World::folder(m, *from).retain(|f| f != file);
                    World::folder(m, *to).push(file.clone());
                    let source = self.path(mailbox, *from, file);
                    let target = self.path(mailbox, *to, file);
                    for entry in self.files.iter_mut() {
                        if entry.0 == source {
                            entry.0 = target.clone();
                        }
                    }
                }
            }
        }
    }

    fn run(&mut self, command: Commands) -> Result<Outcome, MailError> {
        let out = run(&Cli { command }, &self.env)?;
        self.printed = match &out.report {
            Report::Message { path } => self.contents(path),
            _ => None,
        };
        self.apply(&out);
        Ok(out)
    }

    fn send(&mut self, to: &str, from: Option<&str>, subject: Option<&str>, body: &str) -> String {
        self.env.fresh_id = Ulid::new().to_string();
        let out = self
            .run(Commands::Send(send_args(to, from, subject, body)))
            .unwrap();
        match out.report {
            Report::Sent(r) => r.id,
            _ => panic!("send reports a delivery"),
        }
    }

    fn text(&mut self, command: Commands) -> String {
        let out = self.run(command).unwrap();
        render_text(&out.report)
    }
}

fn send_args(to: &str, from: Option<&str>, subject: Option<&str>, body: &str) -> SendArgs {
    SendArgs {
        to: to.to_string(),
        from: from.map(|s| s.to_string()),
        reply_to: None,
        subject: subject.map(|s| s.to_string()),
        in_reply_to: None,
        body: Some(body.to_string()),
        body_file: None,
        json: false,
    }
}

fn receipt(id: &str) -> Commands {
    Commands::Receipt(ReceiptArgs { message_id: id.to_string(), json: false })
}

fn read(id: &str, peek: bool) -> Commands {
    Commands::Read(ReadArgs { message_id: id.to_string(), peek })
}

fn scan_to(to: &str) -> Commands {
    Commands::Scan(ScanArgs { to: Some(to.to_string()), all: false, json: false })
}

fn smoke_identity() -> Identity {
    Identity {
        query: "smoke-session".to_string(),
        lookup: Lookup::Found {
            slug: "gienah-oak-darkwood".to_string(),
            name: Some("Gienah Oak of Darkwood".to_string()),
        },
    }
}

#[test]
fn message_format_preserves_mail_headers_and_body() {
    let date = Utc.with_ymd_and_hms(2026, 8, 19, 20, 0, 0).unwrap();
    let message = format_message(
        "sender",
        "receiver",
        Some("reply-target"),
        date.timestamp(),
        "20260819T200000Z-1-2-0",
        Some("previous"),
        "handoff",
        "done",
    )
    .unwrap();

    assert_eq!(
        message,
        "From: sender\nTo: receiver\nReply-To: reply-target\nDate: 2026-08-19T20:00:00Z\nMessage-ID: 20260819T200000Z-1-2-0\nIn-Reply-To: previous\nSubject: handoff\n\ndone\n"
    );
}

#[test]
fn session_id_resolves_to_mailbox_without_identity_tool() {
    let root = tempfile::tempdir().unwrap();
    let root_text = root.path().display().to_string();

    assert_eq!(
        resolve_inbox(&root_text, "smoke-session", &Lookup::Unavailable).unwrap(),
        root.path().join("smoke-session/inbox").display().to_string()
    );
}

#[test]
fn recipient_identifiers_cannot_escape_mail_root() {
    let root = tempfile::tempdir().unwrap();
    let root_text = root.path().display().to_string();

    let error = resolve_inbox(&root_text, "../escape", &Lookup::Unavailable).unwrap_err();
    assert!(error.message().contains("invalid recipient identifier"));
}

#[test]
fn send_read_and_receipt_track_maildir_state() {
    let mut world = World::new("/tmp/mailroot");
    let message_id = world.send("receiver", Some("sender"), Some("handoff"), "Tests are green.");
    assert!(Ulid::from_string(&message_id).is_ok());
    let file = format!("{message_id}.md");
    assert!(world.env.mailboxes[0].new.contains(&file));
    assert_eq!(world.env.mailboxes[0].name, "receiver");

    assert!(world.text(receipt(&message_id)).starts_with("unread\t"));

    let out = world.run(read(&message_id, false)).unwrap();
    match &out.report {
        Report::Message { path } => {
            assert_eq!(path, &format!("/tmp/mailroot/receiver/inbox/new/{file}"))
        }
        _ => panic!("read reports the message file"),
    }
    let printed = world.printed.clone().unwrap();
    assert!(printed.contains("Subject: handoff"));
    assert!(printed.contains("Tests are green."));

    assert!(!world.env.mailboxes[0].new.contains(&file));
    assert!(world.env.mailboxes[0].cur.contains(&file));
    assert!(world.contents(&format!("/tmp/mailroot/receiver/inbox/new/{file}")).is_none());
    assert!(world.contents(&format!("/tmp/mailroot/receiver/inbox/cur/{file}")).is_some());

    assert!(world.text(receipt(&message_id)).starts_with("read\t"));
}

#[test]
fn json_send_receipt_describes_delivery() {
    let root = tempfile::tempdir().unwrap();
    let mut world = World::new(&root.path().display().to_string());
    world.env.fresh_id = Ulid::new().to_string();
    let mut args = send_args("receiver", Some("sender"), Some("handoff"), "Tests are green.");
    args.json = true;
    let out = world.run(Commands::Send(args)).unwrap();
    assert!(out.json);
    match out.report {
        Report::Sent(r) => {
            assert!(Ulid::from_string(&r.id).is_ok());
            assert_eq!(r.recipient, "receiver");
            assert_eq!(r.sender, "sender");
            assert_eq!(r.subject, "handoff");
            assert!(r.timestamp.ends_with('Z'));
            assert_eq!(r.mailbox, root.path().join("receiver/inbox").display().to_string());
            assert!(world.env.mailboxes[0].new.contains(&format!("{}.md", r.id)));
        }
        _ => panic!("send reports a delivery"),
    }
}

#[test]
fn json_addr_describes_recipient_mailbox() {
    let root = tempfile::tempdir().unwrap();
    let mut world = World::new(&root.path().display().to_string());
    let out = world
        .run(Commands::Addr(AddrArgs { recipient: "receiver".to_string(), json: true }))
        .unwrap();
    match out.report {
        Report::Address { recipient, mailbox } => {
            assert_eq!(recipient, "receiver");
            assert_eq!(mailbox, root.path().join("receiver/inbox").display().to_string());
        }
        _ => panic!("addr reports an address"),
    }
    assert!(out.effects.is_empty());
    assert!(world.env.mailboxes.is_empty());
}

#[test]
fn json_scan_describes_unread_messages() {
    let root = tempfile::tempdir().unwrap();
    let mut world = World::new(&root.path().display().to_string());
    world.send("receiver", Some("sender"), Some("handoff"), "Tests are green.");
    let out = world
        .run(Commands::Scan(ScanArgs { to: Some("receiver".to_string()), all: false, json: true }))
        .unwrap();
    match out.report {
        Report::Unread(entries) => {
            assert_eq!(entries.len(), 1);
            assert_eq!(entries[0].mailbox, root.path().join("receiver/inbox").display().to_string());
            assert_eq!(entries[0].sender, "sender");
            assert_eq!(entries[0].subject, "handoff");
            assert!(Ulid::from_string(&entries[0].id).is_ok());
        }
        _ => panic!("scan reports unread messages"),
    }
}

#[test]
fn json_scan_empty_result_is_an_array() {
    let mut world = World::new("/tmp/mailroot");
    let out = world
        .run(Commands::Scan(ScanArgs { to: None, all: true, json: true }))
        .unwrap();
    match out.report {
        Report::Unread(entries) => assert!(entries.is_empty()),
        _ => panic!("scan reports unread messages"),
    }
}

#[test]
fn json_receipt_describes_message_state() {
    let mut world = World::new("/tmp/mailroot");
    let message_id = world.send("receiver", None, None, "hello");
    let out = world
        .run(Commands::Receipt(ReceiptArgs { message_id: message_id.clone(), json: true }))
        .unwrap();
    match out.report {
        Report::Receipt(r) => {
            assert_eq!(r.id, message_id);
            assert_eq!(r.recipient, "receiver");
            assert_eq!(r.state, Delivery::Unread);
            assert!(r.delivered_at.ends_with('Z'));
        }
        _ => panic!("receipt reports a state"),
    }
    world.run(read(&message_id, false)).unwrap();
    let out = world.run(receipt(&message_id)).unwrap();
    match out.report {
        Report::Receipt(r) => assert_eq!(r.state, Delivery::Read),
        _ => panic!("receipt reports a state"),
    }
}

#[test]
fn peek_leaves_message_unread() {
    let mut world = World::new("/tmp/mailroot");
    let message_id = world.send("receiver", None, None, "peek me");
    let out = world.run(read(&message_id, true)).unwrap();
    assert!(out.effects.is_empty());
    assert!(world.printed.clone().unwrap().contains("peek me"));
    assert!(world.text(receipt(&message_id)).starts_with("unread\t"));
}

#[test]
fn agent_id_slug_selects_mailbox_directory() {
    let mut world = World::new("/tmp/mailroot");
    world.env.mailboxes.push(Mailbox {
        name: "Gienah Oak of Darkwood".to_string(),
        new: Vec::new(),
        cur: Vec::new(),
        trash_new: Vec::new(),
        trash_cur: Vec::new(),
    });
    world.env.identities.push(smoke_identity());
    world.env.mail_id = Some("smoke-session".to_string());
    world.env.fresh_id = Ulid::new().to_string();
    let mut args = send_args("smoke-session", None, None, "hello");
    args.json = true;
    let out = world.run(Commands::Send(args)).unwrap();
    match out.report {
        Report::Sent(r) => {
            assert!(Ulid::from_string(&r.id).is_ok());
            assert_eq!(r.recipient, "gienah-oak-darkwood");
            assert_eq!(r.sender, "Gienah Oak of Darkwood");
        }
        _ => panic!("send reports a delivery"),
    }
    assert_eq!(world.env.mailboxes[1].name, "gienah-oak-darkwood");
    assert_eq!(world.env.mailboxes[1].new.len(), 1);
    let message = &world.env.texts[0].text;
    assert!(message.contains("From: Gienah Oak of Darkwood"));
    assert!(message.contains("To: Gienah Oak of Darkwood"));
    let legacy = &world.env.mailboxes[0];
    assert_eq!(legacy.name, "Gienah Oak of Darkwood");
    assert!(legacy.new.is_empty() && legacy.cur.is_empty());
    assert!(!world.env.mailboxes.iter().any(|m| m.name == "smoke-session"));
}

#[test]
fn installed_agent_id_lookup_failure_does_not_use_raw_mailbox() {
    let mut world = World::new("/tmp/mailroot");
    world.env.identities.push(Identity {
        query: "unregistered-session".to_string(),
        lookup: Lookup::Failed,
    });
    let error = world
        .run(Commands::Send(send_args("unregistered-session", None, None, "hello")))
        .err()
        .unwrap();
    assert!(error.message().contains("agent-id lookup failed"));
    assert!(world.env.mailboxes.is_empty());
}

#[test]
fn addr_resolves_without_creating_mailbox() {
    let root = tempfile::tempdir().unwrap();
    let mut world = World::new(&root.path().display().to_string());
    world.env.identities.push(smoke_identity());
    let out = world
        .run(Commands::Addr(AddrArgs { recipient: "smoke-session".to_string(), json: false }))
        .unwrap();
    assert_eq!(
        render_text(&out.report),
        format!("{}/gienah-oak-darkwood/inbox\n", root.path().display())
    );
    assert!(out.effects.is_empty());
    assert!(world.env.mailboxes.is_empty());
}

#[test]
fn scan_lists_unread_headers_for_one_recipient() {
    let mut world = World::new("/tmp/mailroot");
    world.send("receiver", Some("sender"), Some("handoff"), "Unread body");
    let text = world.text(scan_to("receiver"));
    assert!(text.contains("receiver/inbox"));
    assert!(text.contains("from:sender"));
    assert!(text.contains("handoff"));
    assert!(!text.contains("Unread body"));
}

#[test]
fn scan_all_lists_each_agent_inbox() {
    let mut world = World::new("/tmp/mailroot");
    for recipient in ["alpha", "beta"] {
        world.send(recipient, None, Some(recipient), "body");
    }
    let text = world.text(Commands::Scan(ScanArgs { to: None, all: true, json: false }));
    assert!(text.contains("alpha/inbox"));
    assert!(text.contains("beta/inbox"));
    assert!(text.contains("alpha"));
    assert!(text.contains("beta"));
}

#[test]
fn discard_moves_unread_message_to_trash() {
    let mut world = World::new("/tmp/mailroot");
    let message_id = world.send("receiver", None, None, "discard me");
    let file = format!("{message_id}.md");
    world
        .run(Commands::Discard(DiscardArgs { message_id: message_id.clone() }))
        .unwrap();
    assert!(!world.env.mailboxes[0].new.contains(&file));
    assert!(world.env.mailboxes[0].trash_new.contains(&file));
    assert!(world.text(receipt(&message_id)).starts_with("discarded\t"));
    assert!(world.text(scan_to("receiver")).contains("(no unread messages)"));
}

#[test]
fn discard_preserves_read_maildir_state() {
    let mut world = World::new("/tmp/mailroot");
    let message_id = world.send("receiver", None, None, "read then discard");
    let file = format!("{message_id}.md");
    world.run(read(&message_id, false)).unwrap();
    world
        .run(Commands::Discard(DiscardArgs { message_id: message_id.clone() }))
        .unwrap();
    assert!(world.env.mailboxes[0].trash_cur.contains(&file));
    assert!(!world.env.mailboxes[0].trash_new.contains(&file));
}

#[test]
fn prime_reports_the_manual() {
    let mut world = World::new("/tmp/mailroot");
    let out = world.run(Commands::Prime(PrimeArgs { prelude: true })).unwrap();
    assert!(render_text(&out.report).starts_with("# AgentMail workflow"));
}
