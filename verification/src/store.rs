use vstd::prelude::*;

use crate::maildir::{contains_text, message_file, message_file_name, Folder};
use crate::text::texts;

verus! {

broadcast use vstd::string::group_string_axioms;

/// What one mailbox under the mail root holds: the file names listed in each folder of its
/// inbox.
#[derive(Debug)]
pub struct Mailbox {
    /// The mailbox's directory name under the mail root.
    pub name: String,
    pub new: Vec<String>,
    pub cur: Vec<String>,
    pub trash_new: Vec<String>,
    pub trash_cur: Vec<String>,
}

/// The abstract value of a `Mailbox`.
pub struct MailboxView {
    pub name: Seq<char>,
    pub new: Seq<Seq<char>>,
    pub cur: Seq<Seq<char>>,
    pub trash_new: Seq<Seq<char>>,
    pub trash_cur: Seq<Seq<char>>,
}

impl View for Mailbox {
    type V = MailboxView;

    open spec fn view(&self) -> MailboxView {
        MailboxView {
            name: self.name@,
            new: texts(self.new@),
            cur: texts(self.cur@),
            trash_new: texts(self.trash_new@),
            trash_cur: texts(self.trash_cur@),
        }
    }
}

/// The abstract value of the mailboxes under a mail root, in listing order.
pub open spec fn store_view(store: Seq<Mailbox>) -> Seq<MailboxView> {
    store.map_values(|m: Mailbox| m@)
}

/// A Maildir message is in one folder of its inbox at a time.
pub open spec fn filed_once(m: MailboxView) -> bool {
    forall|f: Seq<char>|
        {
            &&& !(#[trigger] m.new.contains(f) && m.cur.contains(f))
            &&& !(m.new.contains(f) && m.trash_new.contains(f))
            &&& !(m.new.contains(f) && m.trash_cur.contains(f))
            &&& !(m.cur.contains(f) && m.trash_new.contains(f))
            &&& !(m.cur.contains(f) && m.trash_cur.contains(f))
            &&& !(m.trash_new.contains(f) && m.trash_cur.contains(f))
        }
}

/// Mailboxes are directories of one root, so no two share a name; and each message file
/// is in one folder of its inbox.
pub open spec fn store_wf(store: Seq<MailboxView>) -> bool {
    &&& forall|i: int, j: int|
        0 <= i < store.len() && 0 <= j < store.len() && i != j ==> #[trigger] store[i].name
            != #[trigger] store[j].name
    &&& forall|i: int| 0 <= i < store.len() ==> filed_once(#[trigger] store[i])
}

/// The state of a delivered message, as a receipt reports it.
#[derive(Clone, Copy, Debug, PartialEq, Eq)]
pub enum Delivery {
    Unread,
    Read,
    Discarded,
}

/// The file names of one folder of a mailbox.
pub open spec fn folder_files(m: MailboxView, f: Folder) -> Seq<Seq<char>> {
    match f {
        Folder::New => m.new,
        Folder::Cur => m.cur,
        Folder::TrashNew => m.trash_new,
        Folder::TrashCur => m.trash_cur,
    }
}

/// A mailbox with one folder's listing replaced.
pub open spec fn with_folder(m: MailboxView, f: Folder, files: Seq<Seq<char>>) -> MailboxView {
    match f {
        Folder::New => MailboxView { new: files, ..m },
        Folder::Cur => MailboxView { cur: files, ..m },
        Folder::TrashNew => MailboxView { trash_new: files, ..m },
        Folder::TrashCur => MailboxView { trash_cur: files, ..m },
    }
}

/// The state of the message `id` in one mailbox: read if its file is in `cur`, else
/// unread if in `new`, else discarded if in either `.Trash` folder.
pub open spec fn mailbox_state(m: MailboxView, id: Seq<char>) -> Option<Delivery> {
    let f = message_file(id);
    if m.cur.contains(f) {
        Some(Delivery::Read)
    } else if m.new.contains(f) {
        Some(Delivery::Unread)
    } else if m.trash_new.contains(f) || m.trash_cur.contains(f) {
        Some(Delivery::Discarded)
    } else {
        None
    }
}

/// The state of the message `id` in one mailbox counting only its live folders: read if
/// its file is in `cur`, else unread if in `new`.
pub open spec fn live_state(m: MailboxView, id: Seq<char>) -> Option<Delivery> {
    let f = message_file(id);
    if m.cur.contains(f) {
        Some(Delivery::Read)
    } else if m.new.contains(f) {
        Some(Delivery::Unread)
    } else {
        None
    }
}

/// Whether the message `id` is in one of the mailbox's `.Trash` folders.
pub open spec fn trashed(m: MailboxView, id: Seq<char>) -> bool {
    let f = message_file(id);
    m.trash_new.contains(f) || m.trash_cur.contains(f)
}

/// The first mailbox at or after position `i` that holds the message `id` in `cur` or
/// `new`, with its state.
pub open spec fn live_from(store: Seq<MailboxView>, id: Seq<char>, i: int) -> Option<
    (int, Delivery),
>
    decreases store.len() - i,
{
    if i < 0 || i >= store.len() {
        None
    } else {
        match live_state(store[i], id) {
            Some(d) => Some((i, d)),
            None => live_from(store, id, i + 1),
        }
    }
}

/// The first mailbox at or after position `i` that holds the message `id` in `.Trash`.
pub open spec fn trash_from(store: Seq<MailboxView>, id: Seq<char>, i: int) -> Option<int>
    decreases store.len() - i,
{
    if i < 0 || i >= store.len() {
        None
    } else if trashed(store[i], id) {
        Some(i)
    } else {
        trash_from(store, id, i + 1)
    }
}

/// Where the message `id` is and in what state: the first mailbox, in listing order, that
/// holds it in `cur` or `new`; only where none does, the first that holds it in `.Trash`,
/// as discarded.
pub open spec fn status(store: Seq<MailboxView>, id: Seq<char>) -> Option<(int, Delivery)> {
    match live_from(store, id, 0) {
        Some(found) => Some(found),
        None => match trash_from(store, id, 0) {
            Some(k) => Some((k, Delivery::Discarded)),
            None => None,
        },
    }
}

/// Whether a mailbox holds the message `id` in any of its folders.
pub fn mailbox_holds(m: &Mailbox, id: &str) -> (yes: bool)
    ensures
        yes == mailbox_state(m@, id@) is Some,
{
    let file = message_file_name(id);
    contains_text(&m.cur, &file) || contains_text(&m.new, &file) || contains_text(
        &m.trash_new,
        &file,
    ) || contains_text(&m.trash_cur, &file)
}

/// Finds the mailbox that holds the message `id` and the message's state.
pub fn locate(store: &Vec<Mailbox>, id: &str) -> (res: Option<(usize, Delivery)>)
    ensures
        match res {
            Some((i, d)) => status(store_view(store@), id@) == Some((i as int, d)) && i
                < store.len() && mailbox_state(store_view(store@)[i as int], id@) == Some(d),
            None => status(store_view(store@), id@) is None,
        },
{
    let ghost s = store_view(store@);
    proof {
        lemma_status_found(s, id@);
    }
    let file = message_file_name(id);
    let mut i: usize = 0;
    while i < store.len()
        invariant
            i <= store.len(),
            s == store_view(store@),
            file@ == message_file(id@),
            live_from(s, id@, 0) == live_from(s, id@, i as int),
        decreases store.len() - i,
    {
        let m = &store[i];
        assert(s[i as int] == m@);
        if contains_text(&m.cur, &file) {
            return Some((i, Delivery::Read));
        }
        if contains_text(&m.new, &file) {
            return Some((i, Delivery::Unread));
        }
        i = i + 1;
    }
    proof {
        lemma_live_from(s, id@, 0);
    }
    let mut j: usize = 0;
    while j < store.len()
        invariant
            j <= store.len(),
            s == store_view(store@),
            file@ == message_file(id@),
            live_from(s, id@, 0) is None,
            forall|k: int| 0 <= k < s.len() ==> live_state(#[trigger] s[k], id@) is None,
            trash_from(s, id@, 0) == trash_from(s, id@, j as int),
        decreases store.len() - j,
    {
        let m = &store[j];
        assert(s[j as int] == m@);
        if contains_text(&m.trash_new, &file) || contains_text(&m.trash_cur, &file) {
            assert(trashed(s[j as int], id@));
            assert(trash_from(s, id@, j as int) == Some(j as int));
            assert(status(s, id@) == Some((j as int, Delivery::Discarded)));
            return Some((j, Delivery::Discarded));
        }
        j = j + 1;
    }
    None
}

// ---------------------------------------------------------------------------
// Changes to the store

/// A change to the mail store that the caller carries out on disk.
#[derive(Debug)]
pub enum Effect {
    /// Create the mailbox's Maildir folders if needed, write `contents` to
    /// `inbox/tmp/<file>`, then move it to `inbox/new/<file>`.
    Deliver { mailbox: String, file: String, contents: String },
    /// Move `<file>` of the mailbox's inbox from one folder to another, creating the
    /// target folder if needed.
    Move { mailbox: String, file: String, from: Folder, to: Folder },
}

/// The abstract value of an `Effect`.
pub enum EffectView {
    Deliver { mailbox: Seq<char>, file: Seq<char>, contents: Seq<char> },
    Move { mailbox: Seq<char>, file: Seq<char>, from: Folder, to: Folder },
}

impl View for Effect {
    type V = EffectView;

    open spec fn view(&self) -> EffectView {
        match self {
            Effect::Deliver { mailbox, file, contents } => EffectView::Deliver {
                mailbox: mailbox@,
                file: file@,
                contents: contents@,
            },
            Effect::Move { mailbox, file, from, to } => EffectView::Move {
                mailbox: mailbox@,
                file: file@,
                from: *from,
                to: *to,
            },
        }
    }
}

/// The abstract value of a list of effects.
pub open spec fn effects_view(v: Seq<Effect>) -> Seq<EffectView> {
    v.map_values(|e: Effect| e@)
}

/// The position of the first mailbox at or after `i` named `name` (the length if none).
pub open spec fn index_from(store: Seq<MailboxView>, name: Seq<char>, i: int) -> int
    decreases store.len() - i,
{
    if i < 0 || i >= store.len() {
        store.len() as int
    } else if store[i].name == name {
        i
    } else {
        index_from(store, name, i + 1)
    }
}

/// The position of the mailbox named `name` (the length if none).
pub open spec fn mailbox_index(store: Seq<MailboxView>, name: Seq<char>) -> int {
    index_from(store, name, 0)
}

/// An empty mailbox.
pub open spec fn empty_mailbox(name: Seq<char>) -> MailboxView {
    MailboxView {
        name,
        new: Seq::empty(),
        cur: Seq::empty(),
        trash_new: Seq::empty(),
        trash_cur: Seq::empty(),
    }
}

/// The store after one effect: a delivery adds the file to `new` of its mailbox (a new
/// mailbox if there is none of that name); a move takes the file out of one folder and
/// puts it in another.
pub open spec fn apply_effect(store: Seq<MailboxView>, e: EffectView) -> Seq<MailboxView> {
    match e {
        EffectView::Deliver { mailbox, file, contents } => {
            let k = mailbox_index(store, mailbox);
            if k < store.len() {
                store.update(k, MailboxView { new: store[k].new.push(file), ..store[k] })
            } else {
                store.push(MailboxView { new: seq![file], ..empty_mailbox(mailbox) })
            }
        },
        EffectView::Move { mailbox, file, from, to } => {
            let k = mailbox_index(store, mailbox);
            if k < store.len() {
                let m = store[k];
                let m1 = with_folder(
                    m,
                    from,
                    folder_files(m, from).filter(|f: Seq<char>| f != file),
                );
                let m2 = with_folder(m1, to, folder_files(m1, to).push(file));
                store.update(k, m2)
            } else {
                store
            }
        },
    }
}

/// The store after a list of effects, carried out in order.
pub open spec fn apply_effects(store: Seq<MailboxView>, es: Seq<EffectView>) -> Seq<MailboxView>
    decreases es.len(),
{
    if es.len() == 0 {
        store
    } else {
        apply_effect(apply_effects(store, es.drop_last()), es.last())
    }
}

// ---------------------------------------------------------------------------
// Facts about the model

pub proof fn lemma_index_from_found(store: Seq<MailboxView>, k: int, i: int)
    requires
        store_wf(store),
        0 <= i <= k < store.len(),
    ensures
        index_from(store, store[k].name, i) == k,
    decreases k - i,
{
    if i < k {
        assert(store[i].name != store[k].name);
        lemma_index_from_found(store, k, i + 1);
    }
}

pub proof fn lemma_index_from_bounds(store: Seq<MailboxView>, name: Seq<char>, i: int)
    requires
        0 <= i,
    ensures
        i <= index_from(store, name, i) <= store.len() || i > store.len(),
        index_from(store, name, i) < store.len() ==> store[index_from(store, name, i)].name
            == name,
        forall|j: int| i <= j < index_from(store, name, i) ==> #[trigger] store[j].name != name,
    decreases store.len() - i,
{
    if i < store.len() && store[i].name != name {
        lemma_index_from_bounds(store, name, i + 1);
    }
}

proof fn lemma_live_from(store: Seq<MailboxView>, id: Seq<char>, i: int)
    requires
        0 <= i,
    ensures
        live_from(store, id, i) matches Some((k, d)) ==> {
            &&& i <= k < store.len()
            &&& live_state(store[k], id) == Some(d)
            &&& forall|j: int| i <= j < k ==> live_state(#[trigger] store[j], id) is None
        },
        live_from(store, id, i) is None ==> forall|j: int|
            i <= j < store.len() ==> live_state(#[trigger] store[j], id) is None,
    decreases store.len() - i,
{
    if i < store.len() && live_state(store[i], id) is None {
        lemma_live_from(store, id, i + 1);
    }
}

proof fn lemma_trash_from(store: Seq<MailboxView>, id: Seq<char>, i: int)
    requires
        0 <= i,
    ensures
        trash_from(store, id, i) matches Some(k) ==> {
            &&& i <= k < store.len()
            &&& trashed(store[k], id)
            &&& forall|j: int| i <= j < k ==> !trashed(#[trigger] store[j], id)
        },
        trash_from(store, id, i) is None ==> forall|j: int|
            i <= j < store.len() ==> !trashed(#[trigger] store[j], id),
    decreases store.len() - i,
{
    if i < store.len() && !trashed(store[i], id) {
        lemma_trash_from(store, id, i + 1);
    }
}

proof fn lemma_live_first(store: Seq<MailboxView>, id: Seq<char>, k: int, i: int)
    requires
        0 <= i <= k < store.len(),
        live_state(store[k], id) is Some,
        forall|j: int| i <= j < k ==> live_state(#[trigger] store[j], id) is None,
    ensures
        live_from(store, id, i) == Some((k, live_state(store[k], id)->0)),
    decreases k - i,
{
    if i < k {
        lemma_live_first(store, id, k, i + 1);
    }
}

proof fn lemma_trash_first(store: Seq<MailboxView>, id: Seq<char>, k: int, i: int)
    requires
        0 <= i <= k < store.len(),
        trashed(store[k], id),
        forall|j: int| i <= j < k ==> !trashed(#[trigger] store[j], id),
    ensures
        trash_from(store, id, i) == Some(k),
    decreases k - i,
{
    if i < k {
        lemma_trash_first(store, id, k, i + 1);
    }
}

proof fn lemma_live_none(store: Seq<MailboxView>, id: Seq<char>, i: int)
    requires
        0 <= i,
        forall|j: int| 0 <= j < store.len() ==> live_state(#[trigger] store[j], id) is None,
    ensures
        live_from(store, id, i) is None,
    decreases store.len() - i,
{
    if i < store.len() {
        lemma_live_none(store, id, i + 1);
    }
}

/// What the status of a message says about the mailboxes: a live state comes from the
/// first mailbox that holds the message in `cur` or `new`; a discarded state from the
/// first that holds it in `.Trash`, where no mailbox holds it live; and no status means no
/// mailbox holds it at all.
pub proof fn lemma_status_found(store: Seq<MailboxView>, id: Seq<char>)
    ensures
        status(store, id) matches Some((k, d)) ==> {
            &&& 0 <= k < store.len()
            &&& mailbox_state(store[k], id) == Some(d)
            &&& d != Delivery::Discarded ==> live_state(store[k], id) == Some(d) && forall|j: int|
                0 <= j < k ==> live_state(#[trigger] store[j], id) is None
            &&& d == Delivery::Discarded ==> trashed(store[k], id) && (forall|j: int|
                0 <= j < store.len() ==> live_state(#[trigger] store[j], id) is None) && forall|
                j: int,
            |
                0 <= j < k ==> !trashed(#[trigger] store[j], id)
        },
        status(store, id) is None ==> forall|j: int|
            0 <= j < store.len() ==> mailbox_state(#[trigger] store[j], id) is None,
{
    lemma_live_from(store, id, 0);
    lemma_trash_from(store, id, 0);
    if status(store, id) is None {
        assert forall|j: int| 0 <= j < store.len() implies mailbox_state(
            #[trigger] store[j],
            id,
        ) is None by {
            assert(live_state(store[j], id) is None);
            assert(!trashed(store[j], id));
        }
    }
}

/// A message held live in mailbox `k`, and live in no earlier one, has its status there.
pub proof fn lemma_status_live(store: Seq<MailboxView>, id: Seq<char>, k: int)
    requires
        0 <= k < store.len(),
        live_state(store[k], id) is Some,
        forall|j: int| 0 <= j < k ==> live_state(#[trigger] store[j], id) is None,
    ensures
        status(store, id) == Some((k, live_state(store[k], id)->0)),
{
    lemma_live_first(store, id, k, 0);
}

/// A message held live in no mailbox, and first held in `.Trash` by mailbox `k`, is
/// discarded there.
pub proof fn lemma_status_trash(store: Seq<MailboxView>, id: Seq<char>, k: int)
    requires
        0 <= k < store.len(),
        trashed(store[k], id),
        forall|j: int| 0 <= j < store.len() ==> live_state(#[trigger] store[j], id) is None,
        forall|j: int| 0 <= j < k ==> !trashed(#[trigger] store[j], id),
    ensures
        status(store, id) == Some((k, Delivery::Discarded)),
{
    lemma_live_none(store, id, 0);
    lemma_trash_first(store, id, k, 0);
}

} // verus!
