use agent_mail::error::MailError;
use agent_mail::mail::{
    addr, age_hours_of, delivered_at, discard, lookup, mail_root, new_message_id, read, receipt,
    resolve_mailbox,
    scan, send, Environment, FileAge, Identity, Lookup, MessageText,
};
use agent_mail::maildir::{
    discover_inboxes, existing_message, final_component_of, find_message, folder_path,
    has_message_extension, inbox_path, message_id_of_file, normalize_message_id, unread_messages,
    Folder, RootEntry,
};
use agent_mail::message::{date_text, format_message, message_header};
use agent_mail::render::{decimal_text, render_text};
use agent_mail::report::Report;
use agent_mail::store::{locate, Delivery, Effect, Mailbox};
use agent_mail::text::{join_path, sort_texts};
use agent_mail::validate::{validate_component, validate_header, validate_optional_header};
use agent_mail::cli::{AddrArgs, DiscardArgs, ReadArgs, ReceiptArgs, ScanArgs, SendArgs};
use ulid::Ulid;

fn strings(v: &[&str]) -> Vec<String> {
    v.iter().map(|s| s.to_string()).collect()
}

fn mailbox(name: &str, new: &[&str], cur: &[&str]) -> Mailbox {
    Mailbox {
        name: name.to_string(),
        new: strings(new),
        cur: strings(cur),
        trash_new: Vec::new(),
        trash_cur: Vec::new(),
    }
}

fn environment(mailboxes: Vec<Mailbox>) -> Environment {
    Environment {
        root: "/mail".to_string(),
        mail_id: None,
        identities: Vec::new(),
        body: None,
        fresh_id: "01J0000000000000000000000A".to_string(),
        now_ms: 1_787_169_600_000,
        mailboxes,
        texts: Vec::new(),
        ages: Vec::new(),
    }
}

fn send_args(to: &str, body: Option<&str>) -> SendArgs {
    SendArgs {
        to: to.to_string(),
        from: None,
        reply_to: None,
        subject: None,
        in_reply_to: None,
        body: body.map(|b| b.to_string()),
        body_file: None,
        json: false,
    }
}

fn error_text<T: std::fmt::Debug>(r: Result<T, MailError>) -> String {
    r.unwrap_err().message()
}

#[test]
fn components_refuse_what_could_leave_the_root() {
    assert!(validate_component("receiver", "recipient identifier").is_ok());
    for bad in ["", ".", "..", "a/b", "nul\0"] {
        assert!(validate_component(bad, "recipient identifier").is_err());
    }
    assert_eq!(
        error_text(validate_component("a/b", "mailbox identifier")),
        "invalid mailbox identifier: \"a/b\""
    );
}

#[test]
fn header_values_refuse_line_breaks() {
    assert!(validate_header("Subject", "hello").is_ok());
    assert_eq!(error_text(validate_header("Subject", "a\nb")), "Subject cannot contain a newline");
    assert!(validate_header("Subject", "a\rb").is_err());
    assert!(validate_optional_header("Reply-To", None).is_ok());
    assert!(validate_optional_header("Reply-To", Some("x\n")).is_err());
}

#[test]
fn paths_join_with_one_separator() {
    assert_eq!(join_path("/mail", "a"), "/mail/a");
    assert_eq!(join_path("/mail/", "a"), "/mail/a");
    assert_eq!(join_path("", "a"), "a");
    assert_eq!(inbox_path("/mail", "alpha"), "/mail/alpha/inbox");
    assert_eq!(folder_path("/mail", "alpha", Folder::TrashCur), "/mail/alpha/inbox/.Trash/cur");
    assert_eq!(folder_path("/mail", "alpha", Folder::New), "/mail/alpha/inbox/new");
}

#[test]
fn mail_root_defaults_to_tmp() {
    assert_eq!(mail_root(None), "/tmp/agent-mail");
    assert_eq!(mail_root(Some("/srv/mail".to_string())), "/srv/mail");
}

#[test]
fn final_components_follow_path_rules() {
    assert_eq!(final_component_of("abc"), Some("abc".to_string()));
    assert_eq!(final_component_of("dir/abc.md"), Some("abc.md".to_string()));
    assert_eq!(final_component_of("dir/abc/"), Some("abc".to_string()));
    assert_eq!(final_component_of("dir/abc/."), Some("abc".to_string()));
    assert_eq!(final_component_of("./abc"), Some("abc".to_string()));
    assert_eq!(final_component_of("a/.."), None);
    assert_eq!(final_component_of("/"), None);
    assert_eq!(final_component_of(""), None);
    assert_eq!(final_component_of("."), None);
}

#[test]
fn message_ids_drop_directories_and_extension() {
    assert_eq!(normalize_message_id("ABC").unwrap(), "ABC");
    assert_eq!(normalize_message_id("ABC.md").unwrap(), "ABC");
    assert_eq!(normalize_message_id("/mail/x/inbox/new/ABC.md").unwrap(), "ABC");
    assert_eq!(error_text(normalize_message_id("..")), "message ID must be a filename");
    assert_eq!(error_text(normalize_message_id(".md")), "invalid message ID: \".md\"");
}

#[test]
fn message_files_have_the_md_extension() {
    assert!(has_message_extension("a.md"));
    assert!(!has_message_extension(".md"));
    assert!(!has_message_extension("a.txt"));
    assert_eq!(message_id_of_file("ABC.md"), "ABC");
}

#[test]
fn unread_messages_are_sorted_message_files() {
    let listing = strings(&["b.md", "notes.txt", "a.md", "c.md"]);
    assert_eq!(
        unread_messages("/mail/x/inbox", &listing),
        strings(&["/mail/x/inbox/new/a.md", "/mail/x/inbox/new/b.md", "/mail/x/inbox/new/c.md"])
    );
    assert_eq!(sort_texts(&strings(&["b", "ab", "a", "b"])), strings(&["a", "ab", "b", "b"]));
}

#[test]
fn existing_and_found_messages() {
    let new = strings(&["B.md", "A.md"]);
    let cur = strings(&["C.md"]);
    assert_eq!(
        existing_message("/i", "new", "A", &new),
        Some("/i/new/A.md".to_string())
    );
    assert_eq!(existing_message("/i", "cur", "A", &cur), None);
    assert_eq!(find_message("/i", Some("C"), &new, &cur).unwrap(), Some("/i/cur/C.md".to_string()));
    assert_eq!(find_message("/i", Some("Z"), &new, &cur).unwrap(), None);
    assert_eq!(find_message("/i", None, &new, &cur).unwrap(), Some("/i/new/A.md".to_string()));
    assert!(find_message("/i", Some(""), &new, &cur).is_err());
}

#[test]
fn inboxes_are_directories_with_an_inbox() {
    let entries = vec![
        RootEntry { name: "beta".to_string(), is_dir: true, has_inbox: true },
        RootEntry { name: "file".to_string(), is_dir: false, has_inbox: false },
        RootEntry { name: "empty".to_string(), is_dir: true, has_inbox: false },
        RootEntry { name: "alpha".to_string(), is_dir: true, has_inbox: true },
    ];
    assert_eq!(
        discover_inboxes("/mail", &entries),
        strings(&["/mail/beta/inbox", "/mail/alpha/inbox"])
    );
}

#[test]
fn headers_are_read_from_the_header_block() {
    let text = "From: a\r\nSubject: hi\r\n\r\nSubject: body\n";
    assert_eq!(message_header(text, "From"), Some("a".to_string()));
    assert_eq!(message_header(text, "Subject"), Some("hi".to_string()));
    assert_eq!(message_header(text, "To"), None);
    assert_eq!(message_header("To: x\n\nFrom: y\n", "From"), None);
    assert_eq!(message_header("Subject:x\n", "Subject"), None);
    assert_eq!(message_header("", "From"), None);
}

#[test]
fn written_headers_read_back() {
    let message = format_message("me", "you", None, 0, "ID", None, "topic", "body").unwrap();
    assert_eq!(message_header(&message, "From"), Some("me".to_string()));
    assert_eq!(message_header(&message, "Subject"), Some("topic".to_string()));
    assert_eq!(message_header(&message, "Date"), Some("1970-01-01T00:00:00Z".to_string()));
}

#[test]
fn bodies_end_with_one_line_feed() {
    let message = format_message("a", "b", None, 0, "ID", None, "s", "line\n").unwrap();
    assert!(message.ends_with("\n\nline\n"));
    let message = format_message("a", "b", None, 0, "ID", None, "s", "").unwrap();
    assert!(message.ends_with("Subject: s\n\n\n"));
}

#[test]
fn dates_are_written_in_utc() {
    assert_eq!(date_text(0), Some("1970-01-01T00:00:00Z".to_string()));
    assert_eq!(date_text(1_787_169_600), Some("2026-08-19T20:00:00Z".to_string()));
    assert_eq!(date_text(i64::MAX), None);
    assert!(format_message("a", "b", None, i64::MAX, "ID", None, "s", "x").is_err());
}

#[test]
fn decimals_are_written_without_leading_zeros() {
    assert_eq!(decimal_text(0), "0");
    assert_eq!(decimal_text(7), "7");
    assert_eq!(decimal_text(1200), "1200");
    assert_eq!(decimal_text(u64::MAX), u64::MAX.to_string());
}

#[test]
fn ulid_times_give_delivery_and_file_age() {
    let id = Ulid::from_parts(1_787_169_600_000, 7).to_string();
    let mut env = environment(Vec::new());
    assert_eq!(delivered_at(&id), "2026-08-19T20:00:00Z");
    assert_eq!(delivered_at(&id.to_lowercase()), "2026-08-19T20:00:00Z");
    env.now_ms = 1_787_169_600_000 + 5 * 3_600_000 + 59_000;
    env.ages.push(FileAge {
        mailbox: "alpha".to_string(),
        folder: Folder::New,
        file: format!("{id}.md"),
        hours: 2,
    });
    assert_eq!(age_hours_of(&env, &id, "alpha", Folder::New), 2);
    assert_eq!(age_hours_of(&env, &id, "alpha", Folder::Cur), 0);
    assert_eq!(age_hours_of(&env, &id, "beta", Folder::New), 0);
    env.ages.clear();
    env.now_ms = 0;
    let legacy = "20260819T200000Z-1-2-0";
    assert_eq!(delivered_at(legacy), "20260819T200000Z");
    env.now_ms = 1_787_169_600_000 + 3 * 3_600_000;
    assert_eq!(age_hours_of(&env, legacy, "alpha", Folder::New), 3);
    env.now_ms = 5;
    assert_eq!(age_hours_of(&env, legacy, "alpha", Folder::New), 0);
    env.ages.push(FileAge {
        mailbox: "alpha".to_string(),
        folder: Folder::Cur,
        file: "plain.md".to_string(),
        hours: 9,
    });
    assert_eq!(age_hours_of(&env, "plain", "alpha", Folder::Cur), 9);
    assert_eq!(delivered_at("plain"), "plain");
    assert_eq!(age_hours_of(&env, "plain", "beta", Folder::Cur), 0);
    // not 26 base-32 digits: no ULID date
    assert_eq!(delivered_at("01J0000000000000000000000I"), "01J0000000000000000000000I");
    assert_eq!(delivered_at("01J000000000000000000000A"), "01J000000000000000000000A");
}

#[test]
fn lookups_take_the_first_answer() {
    let ids = vec![
        Identity { query: "x".to_string(), lookup: Lookup::Failed },
        Identity { query: "x".to_string(), lookup: Lookup::Unavailable },
    ];
    assert!(matches!(lookup(&ids, "x"), Lookup::Failed));
    assert!(matches!(lookup(&ids, "y"), Lookup::Unavailable));
}

#[test]
fn resolution_uses_slug_and_name() {
    let found = Lookup::Found { slug: "slug".to_string(), name: Some("Name".to_string()) };
    let r = resolve_mailbox("id", &found).unwrap();
    assert_eq!((r.mailbox.as_str(), r.display.as_str()), ("slug", "Name"));
    let unnamed = Lookup::Found { slug: "slug".to_string(), name: None };
    let r = resolve_mailbox("id", &unnamed).unwrap();
    assert_eq!((r.mailbox.as_str(), r.display.as_str()), ("slug", "slug"));
    let bad = Lookup::Found { slug: "../x".to_string(), name: Some("N".to_string()) };
    let r = resolve_mailbox("id", &bad).unwrap();
    assert_eq!((r.mailbox.as_str(), r.display.as_str()), ("id", "id"));
    let r = resolve_mailbox("id", &Lookup::Unreadable).unwrap();
    assert_eq!((r.mailbox.as_str(), r.display.as_str()), ("id", "id"));
    assert_eq!(error_text(resolve_mailbox("id", &Lookup::Failed)), "agent-id lookup failed for \"id\"");
    assert!(resolve_mailbox("..", &found).is_err());
}

#[test]
fn send_refuses_bad_input() {
    let env = environment(Vec::new());
    let mut args = send_args("to", Some("b"));
    args.body_file = Some("f".to_string());
    assert_eq!(error_text(send(&args, &env)), "--body and --body-file are mutually exclusive");
    assert_eq!(error_text(send(&send_args("to", None), &env)), "no message body was provided");
    let mut args = send_args("to", Some("b"));
    args.subject = Some("a\nb".to_string());
    assert_eq!(error_text(send(&args, &env)), "Subject cannot contain a newline");
    let mut args = send_args("to", Some("b"));
    args.from = Some("x\ny".to_string());
    assert_eq!(error_text(send(&args, &env)), "From cannot contain a newline");
    let mut env = environment(Vec::new());
    env.now_ms = u64::MAX;
    assert_eq!(error_text(send(&send_args("to", Some("b")), &env)), "the current time cannot be written as a date");
    let mut env = environment(Vec::new());
    env.fresh_id = "a/b".to_string();
    assert!(send(&send_args("to", Some("b")), &env).is_err());
    let mut env = environment(vec![mailbox("to", &[], &[])]);
    env.mailboxes[0].trash_cur.push("01J0000000000000000000000A.md".to_string());
    assert_eq!(
        error_text(send(&send_args("to", Some("b")), &env)),
        "message 01J0000000000000000000000A already exists"
    );
    // another inbox holding the same ID does not stop the delivery
    let env = environment(vec![mailbox("other", &[], &["01J0000000000000000000000A.md"])]);
    assert!(send(&send_args("to", Some("b")), &env).is_ok());
}

#[test]
fn send_defaults_sender_and_subject() {
    let mut env = environment(Vec::new());
    env.body = Some("from stdin".to_string());
    let out = send(&send_args("to", None), &env).unwrap();
    match &out.effects[0] {
        Effect::Deliver { mailbox, file, contents } => {
            assert_eq!(mailbox, "to");
            assert_eq!(file, "01J0000000000000000000000A.md");
            assert!(contents.starts_with("From: unknown\nTo: to\nDate: 2026-08-19T20:00:00Z\n"));
            assert!(contents.contains("Subject: (no subject)\n\nfrom stdin\n"));
        }
        _ => panic!("send delivers"),
    }
    env.mail_id = Some("me".to_string());
    let out = send(&send_args("to", Some("x")), &env).unwrap();
    assert_eq!(render_text(&out.report), "01J0000000000000000000000A\n");
    match out.report {
        Report::Sent(r) => assert_eq!(r.sender, "me"),
        _ => panic!("send reports"),
    }
}

#[test]
fn scan_needs_exactly_one_target() {
    let env = environment(Vec::new());
    let both = ScanArgs { to: Some("x".to_string()), all: true, json: false };
    let neither = ScanArgs { to: None, all: false, json: false };
    assert_eq!(error_text(scan(&both, &env)), "scan requires exactly one of --to ID or --all");
    assert!(scan(&neither, &env).is_err());
}

#[test]
fn scan_lists_in_name_order_and_needs_texts() {
    let mut env = environment(vec![mailbox("beta", &["2.md"], &[]), mailbox("alpha", &["1.md"], &[])]);
    let all = ScanArgs { to: None, all: true, json: false };
    assert_eq!(error_text(scan(&all, &env)), "reading message headers from /mail/alpha/inbox/new/1.md");
    env.texts.push(MessageText { mailbox: "beta".to_string(), file: "2.md".to_string(), text: "Subject: two\n\n".to_string() });
    env.texts.push(MessageText { mailbox: "alpha".to_string(), file: "1.md".to_string(), text: "From: a\n\n".to_string() });
    let out = scan(&all, &env).unwrap();
    assert_eq!(
        render_text(&out.report),
        "/mail/alpha/inbox\t1\tfrom:a\t\n/mail/beta/inbox\t2\tfrom:unknown\ttwo\n"
    );
}

#[test]
fn receipts_name_state_and_mailbox() {
    let mut env = environment(vec![mailbox("alpha", &["N.md"], &["C.md"])]);
    env.mailboxes[0].trash_cur.push("T.md".to_string());
    let r = |id: &str| receipt(&ReceiptArgs { message_id: id.to_string(), json: false }, &env);
    assert_eq!(render_text(&r("C").unwrap().report), "read\tC\tto:alpha\tdelivered:C\t0h ago\n");
    assert!(render_text(&r("N").unwrap().report).starts_with("unread\t"));
    assert!(render_text(&r("T").unwrap().report).starts_with("discarded\t"));
    assert_eq!(
        error_text(r("Z")),
        "unknown\tZ\tnot in any inbox (read and discarded, or never delivered)"
    );
    assert!(matches!(locate(&env.mailboxes, "N"), Some((0, Delivery::Unread))));
}

#[test]
fn receipts_take_the_age_of_the_file_they_describe() {
    let mut env = environment(vec![mailbox("alpha", &["C.md"], &["C.md"])]);
    env.mailboxes[0].trash_cur.push("T.md".to_string());
    for (folder, file, hours) in [
        (Folder::New, "C.md", 1),
        (Folder::Cur, "C.md", 4),
        (Folder::TrashNew, "T.md", 6),
        (Folder::TrashCur, "T.md", 7),
    ] {
        env.ages.push(FileAge { mailbox: "alpha".to_string(), folder, file: file.to_string(), hours });
    }
    let r = |id: &str| receipt(&ReceiptArgs { message_id: id.to_string(), json: false }, &env);
    assert_eq!(render_text(&r("C").unwrap().report), "read\tC\tto:alpha\tdelivered:C\t4h ago\n");
    assert_eq!(render_text(&r("T").unwrap().report), "discarded\tT\tto:alpha\tdelivered:T\t7h ago\n");
}

#[test]
fn read_refuses_unknown_and_discarded_messages() {
    let mut env = environment(vec![mailbox("alpha", &[], &[])]);
    env.mailboxes[0].trash_new.push("T.md".to_string());
    let args = |id: &str| ReadArgs { message_id: id.to_string(), peek: false };
    assert_eq!(error_text(read(&args("T"), &env)), "no message for 'T'");
    assert_eq!(error_text(read(&args("Z"), &env)), "no message for 'Z'");
}

#[test]
fn discard_of_a_discarded_message_changes_nothing() {
    let mut env = environment(vec![mailbox("alpha", &[], &[])]);
    env.mailboxes[0].trash_new.push("T.md".to_string());
    let out = discard(&DiscardArgs { message_id: "T".to_string() }, &env).unwrap();
    assert!(out.effects.is_empty());
    assert_eq!(render_text(&out.report), "discarded\tT\tto:alpha\n");
    let out = discard(&DiscardArgs { message_id: "Z".to_string() }, &env).unwrap();
    assert!(out.effects.is_empty());
    assert_eq!(render_text(&out.report), "");
    assert!(discard(&DiscardArgs { message_id: "..".to_string() }, &env).is_err());
}

#[test]
fn a_live_copy_wins_over_an_earlier_trashed_one() {
    let mut env = environment(vec![mailbox("alpha", &[], &[]), mailbox("beta", &["M.md"], &[])]);
    env.mailboxes[0].trash_new.push("M.md".to_string());
    let out = receipt(&ReceiptArgs { message_id: "M".to_string(), json: false }, &env).unwrap();
    assert!(render_text(&out.report).starts_with("unread\tM\tto:beta\t"));
    let out = read(&ReadArgs { message_id: "M".to_string(), peek: true }, &env).unwrap();
    match out.report {
        Report::Message { path } => assert_eq!(path, "/mail/beta/inbox/new/M.md"),
        _ => panic!("read reports the message file"),
    }
    assert!(matches!(locate(&env.mailboxes, "M"), Some((1, Delivery::Unread))));
    let out = discard(&DiscardArgs { message_id: "M".to_string() }, &env).unwrap();
    match &out.effects[0] {
        Effect::Move { mailbox, from, to, .. } => {
            assert_eq!((mailbox.as_str(), *from, *to), ("beta", Folder::New, Folder::TrashNew));
        }
        _ => panic!("discard moves"),
    }
}

#[test]
fn headers_written_by_send_are_read_back() {
    let env = environment(Vec::new());
    let mut args = send_args("to", Some("b"));
    args.from = Some("me".to_string());
    args.reply_to = Some("back".to_string());
    args.in_reply_to = Some("earlier".to_string());
    args.subject = Some("topic".to_string());
    let out = send(&args, &env).unwrap();
    let contents = match &out.effects[0] {
        Effect::Deliver { contents, .. } => contents.clone(),
        _ => panic!("send delivers"),
    };
    assert_eq!(message_header(&contents, "From"), Some("me".to_string()));
    assert_eq!(message_header(&contents, "To"), Some("to".to_string()));
    assert_eq!(message_header(&contents, "Reply-To"), Some("back".to_string()));
    assert_eq!(message_header(&contents, "Date"), Some("2026-08-19T20:00:00Z".to_string()));
    assert_eq!(message_header(&contents, "Message-ID"), Some("01J0000000000000000000000A".to_string()));
    assert_eq!(message_header(&contents, "In-Reply-To"), Some("earlier".to_string()));
    assert_eq!(message_header(&contents, "Subject"), Some("topic".to_string()));
    let out = send(&send_args("to", Some("b")), &env).unwrap();
    let contents = match &out.effects[0] {
        Effect::Deliver { contents, .. } => contents.clone(),
        _ => panic!("send delivers"),
    };
    assert_eq!(message_header(&contents, "Reply-To"), None);
    assert_eq!(message_header(&contents, "In-Reply-To"), None);
}

#[test]
fn read_moves_unread_to_cur() {
    let env = environment(vec![mailbox("alpha", &["N.md"], &[])]);
    let out = read(&ReadArgs { message_id: "N".to_string(), peek: false }, &env).unwrap();
    match &out.effects[0] {
        Effect::Move { mailbox, file, from, to } => {
            assert_eq!((mailbox.as_str(), file.as_str(), *from, *to), ("alpha", "N.md", Folder::New, Folder::Cur));
        }
        _ => panic!("read moves"),
    }
}

#[test]
fn addr_reports_the_inbox() {
    let env = environment(Vec::new());
    let out = addr(&AddrArgs { recipient: "alpha".to_string(), json: false }, &env).unwrap();
    assert_eq!(render_text(&out.report), "/mail/alpha/inbox\n");
    assert!(addr(&AddrArgs { recipient: "..".to_string(), json: false }, &env).is_err());
}

#[test]
fn read_takes_the_new_copy_first() {
    let env = environment(vec![mailbox("alpha", &["B.md"], &["B.md"])]);
    let out = read(&ReadArgs { message_id: "B".to_string(), peek: false }, &env).unwrap();
    match out.report {
        Report::Message { path } => assert_eq!(path, "/mail/alpha/inbox/new/B.md"),
        _ => panic!("read reports the message file"),
    }
    assert_eq!(out.effects.len(), 1);
    let env = environment(vec![mailbox("alpha", &[], &["B.md"])]);
    let out = read(&ReadArgs { message_id: "B.md".to_string(), peek: false }, &env).unwrap();
    match out.report {
        Report::Message { path } => assert_eq!(path, "/mail/alpha/inbox/cur/B.md"),
        _ => panic!("read reports the message file"),
    }
    assert!(out.effects.is_empty());
}

#[test]
fn new_message_ids_are_ulids() {
    let a = new_message_id();
    let b = new_message_id();
    assert_eq!(a.len(), 26);
    assert!(Ulid::from_string(&a).is_ok());
    assert_ne!(a, b);
    assert!(validate_component(&a, "message ID").is_ok());
    assert!(!a.ends_with(".md"));
}
