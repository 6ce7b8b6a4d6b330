use vstd::prelude::*;

use crate::cli::{AddrArgs, DiscardArgs, ReadArgs, ReceiptArgs, ScanArgs, SendArgs};
use crate::mail::{
    addr_post, body_spec, dash_len, discard_post, display_name, entry_spec, file_entries, scan_targets, hours_since, legacy_id_seconds,
    lookup_spec, new_listing, opt_arg, read_post, read_spec, receipt_post, receipt_spec,
    recorded_age, resolve_spec, scan_post, send_post, send_spec, target_entries, text_from,
    Environment,
};
use crate::maildir::{
    inbox_spec, is_message_file, message_file, message_file_filter, message_stem, normalized_id,
    normalized_id_ok, folder_spec, unread_files, Folder,
};
use crate::message::{header_value, lemma_written_headers_read_back};
use crate::report::{entries_view, Outcome, Report, ScanEntryView};
use crate::store::{
    apply_effect, apply_effects, effects_view, filed_once, folder_files, index_from,
    lemma_index_from_bounds, lemma_index_from_found, lemma_status_found, lemma_status_live,
    lemma_status_trash, live_state, mailbox_index, mailbox_state, status, store_view, store_wf,
    trashed, with_folder, Delivery, EffectView, MailboxView,
};
use crate::text::{join_spec, lemma_text_order_total, text_order};
use crate::validate::component_ok;

verus! {

/// Carrying out a single effect.
proof fn lemma_apply_one(store: Seq<MailboxView>, es: Seq<EffectView>)
    requires
        es.len() == 1,
    ensures
        apply_effects(store, es) == apply_effect(store, es[0]),
{
    assert(es.drop_last() =~= Seq::<EffectView>::empty());
    assert(apply_effects(store, es.drop_last()) == store);
    assert(es.last() == es[0]);
}

/// A message that `send` delivered is, once the delivery is carried out, unread in the
/// recipient's mailbox, and a receipt for its ID reports it so. This holds where no other
/// inbox holds a message of the same ID (a receipt reports the first inbox that holds it)
/// and the ID does not itself end in `.md` (which a receipt would strip).
pub proof fn law_sent_message_is_unread(
    args: SendArgs,
    env: Environment,
    out: Outcome,
    after: Environment,
    receipt_args: ReceiptArgs,
)
    requires
        store_wf(store_view(env.mailboxes@)),
        forall|j: int|
            0 <= j < env.mailboxes.len() ==> mailbox_state(
                #[trigger] store_view(env.mailboxes@)[j],
                env.fresh_id@,
            ) is None,
        !".md"@.is_suffix_of(env.fresh_id@),
        send_post(args, env, Ok(out)),
        store_view(after.mailboxes@) == apply_effects(
            store_view(env.mailboxes@),
            effects_view(out.effects@),
        ),
        receipt_args.message_id@ == env.fresh_id@,
    ensures
        out.report matches Report::Sent(r) && receipt_spec(receipt_args, after) matches Ok(x)
            && x.state == Delivery::Unread && x.recipient == r.recipient@ && x.id
            == env.fresh_id@,
{
    let store = store_view(env.mailboxes@);
    let id = env.fresh_id@;
    let p = send_spec(args, env)->Ok_0;
    let file = message_file(id);
    let e = EffectView::Deliver { mailbox: p.mailbox, file, contents: p.message };
    lemma_apply_one(store, effects_view(out.effects@));
    let a = apply_effect(store, e);
    assert(store_view(after.mailboxes@) == a);
    assert(component_ok(id));
    normalized_id_ok(id);
    let k = mailbox_index(store, p.mailbox);
    lemma_index_from_bounds(store, p.mailbox, 0);
    assert forall|j: int| 0 <= j < k implies live_state(#[trigger] a[j], id) is None by {
        assert(a[j] == store[j]);
        assert(mailbox_state(store[j], id) is None);
    }
    if k < store.len() {
        assert(a[k].new.contains(file)) by {
            assert(a[k].new[a[k].new.len() - 1] == file);
        }
        assert(live_state(a[k], id) == Some(Delivery::Unread)) by {
            assert(a[k].cur == store[k].cur);
            assert(mailbox_state(store[k], id) is None);
        }
    } else {
        assert(a[k].new.contains(file)) by {
            assert(a[k].new[0] == file);
        }
    }
    lemma_status_live(a, id, k);
}

/// `send` never overwrites a message: the inbox it delivers to holds no file of the
/// delivered name in any of its folders.
pub proof fn law_send_never_overwrites(args: SendArgs, env: Environment, out: Outcome)
    requires
        send_post(args, env, Ok(out)),
    ensures
        out.effects@.len() == 1,
        out.effects@[0]@ matches EffectView::Deliver { mailbox, file, .. } && file == message_file(
            env.fresh_id@,
        ) && {
            let store = store_view(env.mailboxes@);
            let k = mailbox_index(store, mailbox);
            k < store.len() ==> mailbox_state(store[k], env.fresh_id@) is None
        },
{
    assert(effects_view(out.effects@).len() == 1);
    assert(effects_view(out.effects@).len() == out.effects@.len());
    assert(effects_view(out.effects@)[0] == out.effects@[0]@);
}

/// The state of a message after its file moves between two folders of its mailbox.
proof fn lemma_moved_state(
    store: Seq<MailboxView>,
    id: Seq<char>,
    k: int,
    from: Folder,
    to: Folder,
)
    requires
        store_wf(store),
        0 <= k < store.len(),
        from != to,
    ensures
        ({
            let file = message_file(id);
            let a = apply_effect(
                store,
                EffectView::Move { mailbox: store[k].name, file, from, to },
            );
            &&& a.len() == store.len()
            &&& forall|j: int| 0 <= j < a.len() && j != k ==> #[trigger] a[j] == store[j]
            &&& a[k].name == store[k].name
            &&& !folder_files(a[k], from).contains(file)
            &&& folder_files(a[k], to).contains(file)
            &&& forall|f: Folder| f != from && f != to ==> #[trigger] folder_files(a[k], f)
                == folder_files(store[k], f)
        }),
{
    let file = message_file(id);
    lemma_index_from_found(store, k, 0);
    let m = store[k];
    let kept = folder_files(m, from).filter(|f: Seq<char>| f != file);
    let m1 = with_folder(m, from, kept);
    let m2 = with_folder(m1, to, folder_files(m1, to).push(file));
    assert(!kept.contains(file)) by {
        if kept.contains(file) {
            let i = choose|i: int| 0 <= i < kept.len() && kept[i] == file;
            folder_files(m, from).lemma_filter_pred(|f: Seq<char>| f != file, i);
        }
    }
    assert(folder_files(m2, to).contains(file)) by {
        assert(folder_files(m2, to)[folder_files(m2, to).len() - 1] == file);
    }
}

/// Reading an unread message without `--peek` marks it read: once the move is carried
/// out, a receipt for it reports it read, in the same mailbox.
pub proof fn law_read_marks_read(
    args: ReadArgs,
    env: Environment,
    out: Outcome,
    after: Environment,
    receipt_args: ReceiptArgs,
)
    requires
        store_wf(store_view(env.mailboxes@)),
        read_post(args, env, Ok(out)),
        !args.peek,
        normalized_id(args.message_id@) matches Ok(id) && status(
            store_view(env.mailboxes@),
            id,
        ) matches Some((_k, Delivery::Unread)),
        store_view(after.mailboxes@) == apply_effects(
            store_view(env.mailboxes@),
            effects_view(out.effects@),
        ),
        receipt_args.message_id@ == args.message_id@,
    ensures
        receipt_spec(receipt_args, after) matches Ok(x) && x.state == Delivery::Read
            && x.recipient == store_view(env.mailboxes@)[(status(
            store_view(env.mailboxes@),
            normalized_id(args.message_id@)->Ok_0,
        )->0).0].name,
{
    let store = store_view(env.mailboxes@);
    let id = normalized_id(args.message_id@)->Ok_0;
    let k = (status(store, id)->0).0;
    lemma_status_found(store, id);
    let file = message_file(id);
    lemma_apply_one(store, effects_view(out.effects@));
    lemma_moved_state(store, id, k, Folder::New, Folder::Cur);
    let a = apply_effect(
        store,
        EffectView::Move { mailbox: store[k].name, file, from: Folder::New, to: Folder::Cur },
    );
    assert(live_state(a[k], id) == Some(Delivery::Read)) by {
        assert(folder_files(a[k], Folder::Cur).contains(file));
    }
    assert forall|j: int| 0 <= j < k implies live_state(#[trigger] a[j], id) is None by {
        assert(a[j] == store[j]);
    }
    lemma_status_live(a, id, k);
}

/// Reading with `--peek` changes nothing.
pub proof fn law_peek_changes_nothing(args: ReadArgs, env: Environment, out: Outcome)
    requires
        read_post(args, env, Ok(out)),
        args.peek,
    ensures
        apply_effects(store_view(env.mailboxes@), effects_view(out.effects@)) == store_view(
            env.mailboxes@,
        ),
{
}

/// Discarding keeps a message's read state inside the inbox's `.Trash` folder: an unread
/// message moves from `new` to `.Trash/new`, a read one from `cur` to `.Trash/cur` (and not
/// to `.Trash/new`); afterwards a receipt reports it discarded, in the same mailbox, and
/// `scan` no longer lists it. This holds where no other mailbox holds the same ID.
pub proof fn law_discard_keeps_read_state(
    args: DiscardArgs,
    env: Environment,
    out: Outcome,
    after: Environment,
    receipt_args: ReceiptArgs,
)
    requires
        store_wf(store_view(env.mailboxes@)),
        discard_post(args, env, Ok(out)),
        normalized_id(args.message_id@) matches Ok(id) && status(
            store_view(env.mailboxes@),
            id,
        ) matches Some((k, d)) && d != Delivery::Discarded && forall|j: int|
            0 <= j < env.mailboxes.len() && j != k ==> mailbox_state(
                #[trigger] store_view(env.mailboxes@)[j],
                id,
            ) is None,
        store_view(after.mailboxes@) == apply_effects(
            store_view(env.mailboxes@),
            effects_view(out.effects@),
        ),
        receipt_args.message_id@ == args.message_id@,
    ensures
        ({
            let store = store_view(env.mailboxes@);
            let id = normalized_id(args.message_id@)->Ok_0;
            let (k, d) = status(store, id)->0;
            let a = store_view(after.mailboxes@);
            let file = message_file(id);
            &&& d == Delivery::Unread ==> a[k].trash_new.contains(file) && !a[k].new.contains(
                file,
            )
            &&& d == Delivery::Read ==> a[k].trash_cur.contains(file) && !a[k].cur.contains(file)
                && !a[k].trash_new.contains(file)
            &&& receipt_spec(receipt_args, after) matches Ok(x) && x.state == Delivery::Discarded
                && x.recipient == store[k].name
            &&& !unread_files(a[k].new).contains(file)
        }),
{
    let store = store_view(env.mailboxes@);
    let id = normalized_id(args.message_id@)->Ok_0;
    let k = (status(store, id)->0).0;
    let d = (status(store, id)->0).1;
    lemma_status_found(store, id);
    let file = message_file(id);
    lemma_apply_one(store, effects_view(out.effects@));
    assert(filed_once(store[k]));
    assert(!(store[k].new.contains(file) && store[k].cur.contains(file)));
    assert(!(store[k].cur.contains(file) && store[k].trash_new.contains(file)));
    let (from, to) = if d == Delivery::Unread {
        (Folder::New, Folder::TrashNew)
    } else {
        (Folder::Cur, Folder::TrashCur)
    };
    lemma_moved_state(store, id, k, from, to);
    let a = apply_effect(store, EffectView::Move { mailbox: store[k].name, file, from, to });
    assert(store_view(after.mailboxes@) == a);
    assert(folder_files(a[k], Folder::New) == a[k].new);
    assert(folder_files(a[k], Folder::Cur) == a[k].cur);
    assert(folder_files(a[k], Folder::TrashNew) == a[k].trash_new);
    assert(folder_files(a[k], Folder::TrashCur) == a[k].trash_cur);
    assert(folder_files(store[k], Folder::New) == store[k].new);
    assert(folder_files(store[k], Folder::Cur) == store[k].cur);
    assert(folder_files(store[k], Folder::TrashNew) == store[k].trash_new);
    assert(mailbox_state(a[k], id) == Some(Delivery::Discarded));
    assert(live_state(a[k], id) is None);
    assert(trashed(a[k], id));
    assert forall|j: int| 0 <= j < a.len() && j != k implies live_state(#[trigger] a[j], id)
        is None && !trashed(a[j], id) by {
        assert(a[j] == store[j]);
        assert(mailbox_state(store[j], id) is None);
    }
    lemma_status_trash(a, id, k);
    lemma_unread_files_without(a[k].new, file);
}

/// A file that a listing lacks is not among its unread files.
proof fn lemma_unread_files_without(entries: Seq<Seq<char>>, file: Seq<char>)
    requires
        !entries.contains(file),
    ensures
        !unread_files(entries).contains(file),
{
    let filtered = entries.filter(message_file_filter());
    if filtered.contains(file) {
        entries.lemma_filter_contains_rev(message_file_filter(), file);
    }
    lemma_text_order_total();
    filtered.lemma_sort_by_ensures(text_order());
}

/// The unread listing of an inbox is sorted by name and holds exactly its message files.
pub proof fn law_unread_listing_is_sorted(entries: Seq<Seq<char>>)
    ensures
        vstd::relations::sorted_by(unread_files(entries), text_order()),
        unread_files(entries).to_multiset() == entries.filter(message_file_filter()).to_multiset(),
{
    lemma_text_order_total();
    entries.filter(message_file_filter()).lemma_sort_by_ensures(text_order());
}

/// Every header of the message that `send` delivers is read back by `message_header`
/// with the value that `send` wrote: the sender under `From`, the recipient's name under
/// `To`, the reply address (or nothing) under `Reply-To`, the date under `Date`, the
/// message's ID under `Message-ID`, the message replied to (or nothing) under
/// `In-Reply-To`, and the subject under `Subject`.
pub proof fn law_sent_headers_read_back(args: SendArgs, env: Environment, out: Outcome)
    requires
        send_post(args, env, Ok(out)),
    ensures
        out.effects@.len() == 1,
        out.effects@[0]@ matches EffectView::Deliver { contents, .. } && out.report matches Report::Sent(r)
            && {
            &&& header_value(contents, "From"@ + ": "@) == Some(r@.sender)
            &&& header_value(contents, "To"@ + ": "@) == Some(send_spec(args, env)->Ok_0.to_name)
            &&& header_value(contents, "Reply-To"@ + ": "@) == opt_arg(args.reply_to)
            &&& header_value(contents, "Date"@ + ": "@) == Some(r@.timestamp)
            &&& header_value(contents, "Message-ID"@ + ": "@) == Some(r@.id)
            &&& header_value(contents, "In-Reply-To"@ + ": "@) == opt_arg(args.in_reply_to)
            &&& header_value(contents, "Subject"@ + ": "@) == Some(r@.subject)
        },
{
    let p = send_spec(args, env)->Ok_0;
    assert(effects_view(out.effects@).len() == 1);
    assert(effects_view(out.effects@).len() == out.effects@.len());
    assert(effects_view(out.effects@)[0] == out.effects@[0]@);
    lemma_written_headers_read_back(
        p.sender,
        p.to_name,
        opt_arg(args.reply_to),
        p.date,
        env.fresh_id@,
        opt_arg(args.in_reply_to),
        p.subject,
        match body_spec(args, env) {
            Ok(b) => b,
            Err(_) => Seq::empty(),
        },
    );
}

/// Discarding an ID that no inbox holds changes nothing.
pub proof fn law_discard_unknown_changes_nothing(args: DiscardArgs, env: Environment, out: Outcome)
    requires
        discard_post(args, env, Ok(out)),
        normalized_id(args.message_id@) matches Ok(id) && status(store_view(env.mailboxes@), id)
            is None,
    ensures
        apply_effects(store_view(env.mailboxes@), effects_view(out.effects@)) == store_view(
            env.mailboxes@,
        ),
{
}

/// A message that `send` delivered is, once the delivery is carried out, among the unread
/// messages that `scan` lists for the recipient's mailbox.
pub proof fn law_sent_message_is_listed(args: SendArgs, env: Environment, out: Outcome, after: Environment)
    requires
        send_post(args, env, Ok(out)),
        store_view(after.mailboxes@) == apply_effects(
            store_view(env.mailboxes@),
            effects_view(out.effects@),
        ),
    ensures
        out.report matches Report::Sent(r) && unread_files(
            new_listing(store_view(after.mailboxes@), r.recipient@),
        ).contains(message_file(env.fresh_id@)),
{
    let store = store_view(env.mailboxes@);
    let id = env.fresh_id@;
    let p = send_spec(args, env)->Ok_0;
    let file = message_file(id);
    lemma_apply_one(store, effects_view(out.effects@));
    let a = store_view(after.mailboxes@);
    let k = mailbox_index(store, p.mailbox);
    lemma_index_from_bounds(store, p.mailbox, 0);
    lemma_index_from_bounds(a, p.mailbox, 0);
    // the delivered file is in `new` of the first mailbox of that name
    assert(mailbox_index(a, p.mailbox) == k) by {
        assert(a[k].name == p.mailbox);
        assert forall|j: int| 0 <= j < k implies #[trigger] a[j].name != p.mailbox by {
            assert(a[j] == store[j]);
        }
        lemma_first_name(a, p.mailbox, k, 0);
    }
    let listing = new_listing(a, p.mailbox);
    assert(listing[listing.len() - 1] == file);
    assert(is_message_file(file)) by {
        reveal_strlit(".md");
        assert(file.subrange(file.len() - 3, file.len() as int) =~= ".md"@);
    }
    listing.lemma_filter_contains(message_file_filter(), listing.len() - 1);
    let filtered = listing.filter(message_file_filter());
    lemma_text_order_total();
    filtered.lemma_sort_by_ensures(text_order());
    broadcast use vstd::seq_lib::group_to_multiset_ensures;
    assert(filtered.to_multiset().count(file) > 0);
}

/// The first mailbox with a name, found from its position.
proof fn lemma_first_name(store: Seq<MailboxView>, name: Seq<char>, k: int, i: int)
    requires
        0 <= i <= k < store.len(),
        store[k].name == name,
        forall|j: int| 0 <= j < k ==> #[trigger] store[j].name != name,
    ensures
        index_from(store, name, i) == k,
    decreases k - i,
{
    if i < k {
        lemma_first_name(store, name, k, i + 1);
    }
}

/// Reading a message that `send` delivered prints the file that the delivery wrote: the
/// file of that ID in `new` of the recipient's inbox, which holds the message text that
/// `send` composed. This holds where no other inbox holds a message of the same ID and the
/// ID does not itself end in `.md` (which `read` would strip).
pub proof fn law_read_finds_sent_message(
    args: SendArgs,
    env: Environment,
    out: Outcome,
    after: Environment,
    read_args: ReadArgs,
)
    requires
        store_wf(store_view(env.mailboxes@)),
        forall|j: int|
            0 <= j < env.mailboxes.len() ==> mailbox_state(
                #[trigger] store_view(env.mailboxes@)[j],
                env.fresh_id@,
            ) is None,
        !".md"@.is_suffix_of(env.fresh_id@),
        forall|j: int|
            0 <= j < env.mailboxes.len() ==> mailbox_state(
                #[trigger] store_view(env.mailboxes@)[j],
                env.fresh_id@,
            ) is None,
        send_post(args, env, Ok(out)),
        store_view(after.mailboxes@) == apply_effects(
            store_view(env.mailboxes@),
            effects_view(out.effects@),
        ),
        after.root@ == env.root@,
        read_args.message_id@ == env.fresh_id@,
    ensures
        out.effects@.len() == 1,
        out.effects@[0]@ matches EffectView::Deliver { mailbox, file, contents } && read_spec(
            read_args,
            after,
        ) matches Ok((path, _moves)) && path == join_spec(
            folder_spec(env.root@, mailbox, Folder::New),
            file,
        ) && contents == send_spec(args, env)->Ok_0.message,
{
    law_sent_message_is_unread(
        args,
        env,
        out,
        after,
        ReceiptArgs { message_id: read_args.message_id, json: false },
    );
    let a = store_view(after.mailboxes@);
    let id = env.fresh_id@;
    lemma_status_found(a, id);
    let k = (status(a, id)->0).0;
    assert(live_state(a[k], id) == Some(Delivery::Unread));
    assert(a[k].new.contains(message_file(id)));
    assert(effects_view(out.effects@).len() == 1);
    assert(effects_view(out.effects@).len() == out.effects@.len());
    assert(effects_view(out.effects@)[0] == out.effects@[0]@);
}

/// The sender that `send` writes and reports is named by `--from` where it is given,
/// whatever `AGENT_MAIL_ID` holds; only without `--from` does `AGENT_MAIL_ID` name it, and
/// without both it is `unknown`. Each is shown by the identity tool's name for it where the
/// tool finds it. The `From` header of the delivered message holds that sender.
pub proof fn law_from_overrides_mail_id(args: SendArgs, env: Environment, out: Outcome)
    requires
        send_post(args, env, Ok(out)),
    ensures
        out.report matches Report::Sent(r) && {
            &&& args.from matches Some(f) ==> r@.sender == display_name(
                f@,
                lookup_spec(env.identities@, f@),
            )
            &&& env.mail_id matches Some(m) ==> (args.from is None ==> r@.sender == display_name(
                m@,
                lookup_spec(env.identities@, m@),
            ))
            &&& args.from is None && env.mail_id is None ==> r@.sender == display_name(
                "unknown"@,
                lookup_spec(env.identities@, "unknown"@),
            )
        },
        out.effects@[0]@ matches EffectView::Deliver { contents, .. } && out.report matches Report::Sent(r)
            && header_value(contents, "From"@ + ": "@) == Some(r@.sender),
{
    law_sent_headers_read_back(args, env, out);
}

/// The sender `scan` shows for a message text: its `From` header, else `unknown`.
pub open spec fn listed_sender(text: Seq<char>) -> Seq<char> {
    match header_value(text, "From"@ + ": "@) {
        Some(v) => v,
        None => "unknown"@,
    }
}

/// The subject `scan` shows for a message text: its `Subject` header, else nothing.
pub open spec fn listed_subject(text: Seq<char>) -> Seq<char> {
    match header_value(text, "Subject"@ + ": "@) {
        Some(v) => v,
        None => Seq::empty(),
    }
}

/// Listing message files of a mailbox gives one entry per file, in the files' order: the
/// entry for a file names the mailbox's inbox, the file's message ID, and the `From` and
/// `Subject` headers of the file's text; and the listing succeeds exactly when every file
/// has a text.
pub proof fn law_listing_is_one_entry_per_file(
    env: Environment,
    mailbox: Seq<char>,
    files: Seq<Seq<char>>,
)
    ensures
        file_entries(env, mailbox, files) is Ok <==> forall|i: int|
            0 <= i < files.len() ==> #[trigger] text_from(env.texts@, mailbox, files[i], 0) is Some,
        file_entries(env, mailbox, files) matches Ok(es) ==> {
            &&& es.len() == files.len()
            &&& forall|i: int|
                0 <= i < files.len() ==> {
                    let t = text_from(env.texts@, mailbox, files[i], 0)->0;
                    #[trigger] es[i] == ScanEntryView {
                        mailbox: inbox_spec(env.root@, mailbox),
                        id: message_stem(files[i]),
                        sender: listed_sender(t),
                        subject: listed_subject(t),
                    }
                }
        },
    decreases files.len(),
{
    reveal_strlit("");
    if files.len() > 0 {
        let init = files.drop_last();
        law_listing_is_one_entry_per_file(env, mailbox, init);
        assert forall|i: int| 0 <= i < init.len() implies init[i] == files[i] by {}
        if file_entries(env, mailbox, init) is Ok && text_from(
            env.texts@,
            mailbox,
            files.last(),
            0,
        ) is Some {
            assert forall|i: int| 0 <= i < files.len() implies #[trigger] text_from(
                env.texts@,
                mailbox,
                files[i],
                0,
            ) is Some by {
                if i < init.len() {
                    assert(init[i] == files[i]);
                    assert(text_from(env.texts@, mailbox, init[i], 0) is Some);
                }
            }
        }
        if file_entries(env, mailbox, files) is Ok {
            let prev = file_entries(env, mailbox, init)->Ok_0;
            let x = entry_spec(env, mailbox, files.last())->Ok_0;
            let es = file_entries(env, mailbox, files)->Ok_0;
            assert(es == prev.push(x));
            assert forall|i: int| 0 <= i < files.len() implies {
                let t = text_from(env.texts@, mailbox, files[i], 0)->0;
                #[trigger] es[i] == ScanEntryView {
                    mailbox: inbox_spec(env.root@, mailbox),
                    id: message_stem(files[i]),
                    sender: listed_sender(t),
                    subject: listed_subject(t),
                }
            } by {
                let t = text_from(env.texts@, mailbox, files[i], 0)->0;
                if i < init.len() {
                    assert(init[i] == files[i]);
                    assert(es[i] == prev[i]);
                    assert(prev[i] == ScanEntryView {
                        mailbox: inbox_spec(env.root@, mailbox),
                        id: message_stem(init[i]),
                        sender: listed_sender(text_from(env.texts@, mailbox, init[i], 0)->0),
                        subject: listed_subject(text_from(env.texts@, mailbox, init[i], 0)->0),
                    });
                } else {
                    assert(files[i] == files.last());
                    assert(es[i] == x);
                    assert(entry_spec(env, mailbox, files.last()) is Ok);
                    assert(text_from(env.texts@, mailbox, files.last(), 0) is Some);
                    assert(es[i].mailbox == inbox_spec(env.root@, mailbox));
                    assert(es[i].id == message_stem(files[i]));
                    assert(es[i].sender == listed_sender(t));
                    assert(es[i].subject == listed_subject(t));
                }
            }
        }
        if file_entries(env, mailbox, init) is Err {
            let j = choose|i: int|
                0 <= i < init.len() && !(#[trigger] text_from(env.texts@, mailbox, init[i], 0) is Some);
            assert(init[j] == files[j]);
        }
    }
}

/// `scan --to X` lists the mailbox that `X` resolves to (the one `send --to X` delivers
/// to): one entry per unread message file of that mailbox, in name order, each with the
/// file's message ID and the `From` and `Subject` headers of its text.
pub proof fn law_scan_lists_resolved_inbox(args: ScanArgs, env: Environment, out: Outcome)
    requires
        scan_post(args, env, Ok(out)),
        args.to is Some,
    ensures
        ({
            let t = args.to->0;
            let m = resolve_spec(t@, lookup_spec(env.identities@, t@))->Ok_0.0;
            let files = unread_files(new_listing(store_view(env.mailboxes@), m));
            out.report matches Report::Unread(v) && {
                &&& entries_view(v@).len() == files.len()
                &&& forall|i: int|
                    0 <= i < files.len() ==> {
                        let t = text_from(env.texts@, m, files[i], 0)->0;
                        #[trigger] entries_view(v@)[i] == ScanEntryView {
                            mailbox: inbox_spec(env.root@, m),
                            id: message_stem(files[i]),
                            sender: listed_sender(t),
                            subject: listed_subject(t),
                        }
                    }
            }
        }),
{
    let t = args.to->0;
    let m = resolve_spec(t@, lookup_spec(env.identities@, t@))->Ok_0.0;
    let files = unread_files(new_listing(store_view(env.mailboxes@), m));
    let ts = seq![m];
    assert(scan_targets(args, env) == Ok::<Seq<Seq<char>>, crate::error::MailErrorView>(ts));
    assert(ts.drop_last() =~= Seq::<Seq<char>>::empty());
    assert(ts.last() == m);
    assert(target_entries(env, ts.drop_last()) == Ok::<
        Seq<ScanEntryView>,
        crate::error::MailErrorView,
    >(Seq::<ScanEntryView>::empty()));
    law_listing_is_one_entry_per_file(env, m, files);
    assert(file_entries(env, m, files) is Ok);
    let es = file_entries(env, m, files)->Ok_0;
    assert(Seq::<ScanEntryView>::empty() + es =~= es);
    assert(target_entries(env, ts) == Ok::<Seq<ScanEntryView>, crate::error::MailErrorView>(es));
}

/// A message that `send --to X` delivered is listed by a later `scan --to X` (with the
/// same identity answers, and the delivered text read back for its file), under its ID,
/// with the sender and subject that `send` reported.
pub proof fn law_sent_message_is_scanned(
    args: SendArgs,
    env: Environment,
    out: Outcome,
    after: Environment,
    scan_args: ScanArgs,
    scanned: Outcome,
)
    requires
        send_post(args, env, Ok(out)),
        store_view(after.mailboxes@) == apply_effects(
            store_view(env.mailboxes@),
            effects_view(out.effects@),
        ),
        after.identities@ == env.identities@,
        out.effects@[0]@ matches EffectView::Deliver { mailbox, file, contents } && text_from(
            after.texts@,
            mailbox,
            file,
            0,
        ) == Some(contents),
        scan_args.to matches Some(t) && t@ == args.to@,
        scan_post(scan_args, after, Ok(scanned)),
    ensures
        out.report matches Report::Sent(r) && scanned.report matches Report::Unread(v) && exists|
            i: int,
        |
            0 <= i < v.len() && (#[trigger] v[i])@.id == r@.id && v[i]@.sender == r@.sender
                && v[i]@.subject == r@.subject,
{
    let p = send_spec(args, env)->Ok_0;
    let id = env.fresh_id@;
    let file = message_file(id);
    law_sent_message_is_listed(args, env, out, after);
    law_sent_headers_read_back(args, env, out);
    law_scan_lists_resolved_inbox(scan_args, after, scanned);
    let files = unread_files(new_listing(store_view(after.mailboxes@), p.mailbox));
    assert(files.contains(file));
    let i = choose|i: int| 0 <= i < files.len() && files[i] == file;
    reveal_strlit(".md");
    assert(message_stem(file) =~= id);
    let v = scanned.report->Unread_0;
    assert(entries_view(v@)[i] == v@[i]@);
}

/// A receipt's age is that of the file where the message lies, where the ID carries no
/// older timestamp: the file in `new` for an unread message, in `cur` for a read one, and
/// in `.Trash/new` (else `.Trash/cur`) for a discarded one. An ID whose leading part is an
/// older timestamp is aged by that timestamp.
pub proof fn law_receipt_age_is_its_files(args: ReceiptArgs, env: Environment, out: Outcome)
    requires
        receipt_post(args, env, Ok(out)),
    ensures
        out.report matches Report::Receipt(r) && {
            let x = r@;
            let store = store_view(env.mailboxes@);
            let file = message_file(x.id);
            let k = (status(store, x.id)->0).0;
            let age = |f: Folder| recorded_age(env.ages@, x.recipient, f, file, 0);
            &&& legacy_id_seconds(x.id.take(dash_len(x.id) as int)) matches Some(secs)
                ==> x.age_hours == hours_since(env.now_ms, secs * 1000)
            &&& legacy_id_seconds(x.id.take(dash_len(x.id) as int)) is None ==> {
                &&& x.state == Delivery::Unread ==> x.age_hours == age(Folder::New)
                    && store[k].new.contains(file)
                &&& x.state == Delivery::Read ==> x.age_hours == age(Folder::Cur)
                    && store[k].cur.contains(file)
                &&& x.state == Delivery::Discarded ==> x.age_hours == (if store[k].trash_new.contains(
                    file,
                ) {
                    age(Folder::TrashNew)
                } else {
                    age(Folder::TrashCur)
                })
            }
        },
{
    let id = normalized_id(args.message_id@)->Ok_0;
    lemma_status_found(store_view(env.mailboxes@), id);
}

/// `addr X` names the inbox that `send --to X` delivers to, given the same mail root and
/// identity answers.
pub proof fn law_addr_names_send_inbox(
    addr_args: AddrArgs,
    addr_env: Environment,
    addressed: Outcome,
    args: SendArgs,
    env: Environment,
    out: Outcome,
)
    requires
        addr_post(addr_args, addr_env, Ok(addressed)),
        send_post(args, env, Ok(out)),
        addr_args.recipient@ == args.to@,
        addr_env.identities@ == env.identities@,
        addr_env.root@ == env.root@,
    ensures
        addressed.report matches Report::Address { recipient, mailbox } && out.report matches Report::Sent(
            r,
        ) && mailbox@ == r@.mailbox && recipient@ == r@.recipient,
        out.effects@[0]@ matches EffectView::Deliver { mailbox, .. } && addressed.report matches Report::Address {
            recipient,
            ..
        } && mailbox == recipient@,
{
    assert(effects_view(out.effects@).len() == 1);
    assert(effects_view(out.effects@).len() == out.effects@.len());
    assert(effects_view(out.effects@)[0] == out.effects@[0]@);
}

} // verus!
