use vstd::prelude::*;
use vstd::string::StringExecFns;
use vstd::string::StrSliceExecFns;

use crate::error::{MailError, MailErrorView};
use crate::message::opt_view;
use crate::validate::component_ok;
use crate::text::{
    chars_of, concat, contains_char, join_path, join_spec, owned, sort_texts, text_order, texts,
};

verus! {

broadcast use vstd::string::group_string_axioms;

// ---------------------------------------------------------------------------
// Where things live under the mail root

/// The inbox of a mailbox: `<root>/<mailbox>/inbox`.
pub open spec fn inbox_spec(root: Seq<char>, mailbox: Seq<char>) -> Seq<char> {
    join_spec(join_spec(root, mailbox), "inbox"@)
}

/// The Maildir folders of an inbox, with the Maildir++ `.Trash` folder for discarded mail.
#[derive(Clone, Copy, Debug, PartialEq, Eq)]
pub enum Folder {
    New,
    Cur,
    TrashNew,
    TrashCur,
}

/// The directory of a folder, relative to an inbox directory.
pub open spec fn folder_in(inbox: Seq<char>, folder: Folder) -> Seq<char> {
    match folder {
        Folder::New => join_spec(inbox, "new"@),
        Folder::Cur => join_spec(inbox, "cur"@),
        Folder::TrashNew => join_spec(join_spec(inbox, ".Trash"@), "new"@),
        Folder::TrashCur => join_spec(join_spec(inbox, ".Trash"@), "cur"@),
    }
}

/// The directory of a folder of a mailbox under the mail root.
pub open spec fn folder_spec(root: Seq<char>, mailbox: Seq<char>, folder: Folder) -> Seq<char> {
    folder_in(inbox_spec(root, mailbox), folder)
}

/// The inbox directory of `mailbox` under `root`.
pub fn inbox_path(root: &str, mailbox: &str) -> (out: String)
    ensures
        out@ == inbox_spec(root@, mailbox@),
{
    let dir = join_path(root, mailbox);
    join_path(dir.as_str(), "inbox")
}

/// The directory of `folder` inside the inbox directory `inbox`.
pub fn folder_of_inbox(inbox: &str, folder: Folder) -> (out: String)
    ensures
        out@ == folder_in(inbox@, folder),
{
    match folder {
        Folder::New => join_path(inbox, "new"),
        Folder::Cur => join_path(inbox, "cur"),
        Folder::TrashNew => {
            let trash = join_path(inbox, ".Trash");
            join_path(trash.as_str(), "new")
        },
        Folder::TrashCur => {
            let trash = join_path(inbox, ".Trash");
            join_path(trash.as_str(), "cur")
        },
    }
}

/// The directory of `folder` of `mailbox` under `root`.
pub fn folder_path(root: &str, mailbox: &str, folder: Folder) -> (out: String)
    ensures
        out@ == folder_spec(root@, mailbox@, folder),
{
    let inbox = inbox_path(root, mailbox);
    folder_of_inbox(inbox.as_str(), folder)
}

// ---------------------------------------------------------------------------
// Message files

/// The file name under which a message is stored: its ID followed by `.md`.
pub open spec fn message_file(id: Seq<char>) -> Seq<char> {
    id + ".md"@
}

/// Whether a directory entry holds a message: its extension, as `Path::extension`
/// documents it (the part after the last `.`, unless nothing precedes that `.`), is `md`.
pub open spec fn is_message_file(name: Seq<char>) -> bool {
    name.len() > 3 && ".md"@.is_suffix_of(name)
}

/// `is_message_file` as a predicate value.
pub open spec fn message_file_filter() -> spec_fn(Seq<char>) -> bool {
    |name: Seq<char>| is_message_file(name)
}

/// The message ID of a message file: its name without the `.md` extension.
pub open spec fn message_stem(name: Seq<char>) -> Seq<char> {
    if name.len() >= 3 {
        name.take(name.len() - 3)
    } else {
        name
    }
}

/// The message ID of a message file.
pub fn message_id_of_file(name: &str) -> (id: String)
    ensures
        id@ == message_stem(name@),
{
    let n = name.unicode_len();
    if n >= 3 {
        owned(name.substring_char(0, n - 3))
    } else {
        owned(name)
    }
}

/// The file name of the message `id`.
pub fn message_file_name(id: &str) -> (out: String)
    ensures
        out@ == message_file(id@),
{
    concat(id, ".md")
}

/// Whether the characters `cs` end with `.md`.
fn ends_with_md(cs: &Vec<char>) -> (yes: bool)
    ensures
        yes == ".md"@.is_suffix_of(cs@),
{
    proof {
        reveal_strlit(".md");
    }
    let n = cs.len();
    if n >= 3 && cs[n - 3] == '.' && cs[n - 2] == 'm' && cs[n - 1] == 'd' {
        assert(cs@.subrange(n - 3, n as int) =~= ".md"@);
        true
    } else {
        proof {
            if ".md"@.is_suffix_of(cs@) {
                let t = cs@.subrange(n - 3, n as int);
                assert(cs@[n - 3] == t[0]);
                assert(cs@[n - 2] == t[1]);
                assert(cs@[n - 1] == t[2]);
            }
        }
        false
    }
}

/// Whether `name` has the `md` extension.
pub fn has_message_extension(name: &str) -> (yes: bool)
    ensures
        yes == is_message_file(name@),
{
    let cs = chars_of(name);
    cs.len() > 3 && ends_with_md(&cs)
}

/// Whether a listing holds the text `t`.
pub fn contains_text(v: &Vec<String>, t: &String) -> (found: bool)
    ensures
        found == texts(v@).contains(t@),
{
    let mut i: usize = 0;
    while i < v.len()
        invariant
            i <= v.len(),
            forall|k: int| 0 <= k < i ==> texts(v@)[k] != t@,
        decreases v.len() - i,
    {
        if v[i] == *t {
            assert(texts(v@)[i as int] == t@);
            return true;
        }
        i = i + 1;
    }
    false
}

/// The message files of a listing, in listing order.
pub fn message_files(entries: &Vec<String>) -> (out: Vec<String>)
    ensures
        texts(out@) == texts(entries@).filter(message_file_filter()),
{
    let mut out: Vec<String> = Vec::new();
    let mut i: usize = 0;
    proof {
        reveal(Seq::filter);
        assert(texts(entries@).take(0) =~= Seq::<Seq<char>>::empty());
        assert(texts(out@) =~= Seq::<Seq<char>>::empty());
    }
    while i < entries.len()
        invariant
            i <= entries.len(),
            texts(out@) == texts(entries@).take(i as int).filter(message_file_filter()),
        decreases entries.len() - i,
    {
        let ghost before = texts(entries@).take(i as int);
        proof {
            reveal(Seq::filter);
            assert(texts(entries@).take(i + 1).drop_last() =~= before);
            assert(texts(entries@).take(i + 1).last() == entries@[i as int]@);
        }
        if has_message_extension(entries[i].as_str()) {
            out.push(entries[i].clone());
            assert(texts(out@) =~= before.filter(message_file_filter()).push(entries@[i as int]@));
        }
        i = i + 1;
    }
    assert(texts(entries@).take(entries.len() as int) =~= texts(entries@));
    out
}

/// Joins each name of `names` to the directory `dir`.
pub fn paths_in(dir: &str, names: &Vec<String>) -> (out: Vec<String>)
    ensures
        texts(out@) == texts(names@).map_values(|n: Seq<char>| join_spec(dir@, n)),
{
    let mut out: Vec<String> = Vec::new();
    let mut i: usize = 0;
    while i < names.len()
        invariant
            i <= names.len(),
            texts(out@) == texts(names@).take(i as int).map_values(
                |n: Seq<char>| join_spec(dir@, n),
            ),
        decreases names.len() - i,
    {
        let p = join_path(dir, names[i].as_str());
        let ghost prev = texts(out@);
        out.push(p);
        assert(texts(out@) =~= prev.push(join_spec(dir@, names@[i as int]@)));
        assert(texts(names@).take(i + 1) =~= texts(names@).take(i as int).push(names@[i as int]@));
        assert(texts(out@) =~= texts(names@).take(i + 1).map_values(
            |n: Seq<char>| join_spec(dir@, n),
        ));
        i = i + 1;
    }
    assert(texts(names@).take(names.len() as int) =~= texts(names@));
    out
}

/// The message files of an inbox's `new` listing, sorted by name.
pub open spec fn unread_files(new_entries: Seq<Seq<char>>) -> Seq<Seq<char>> {
    new_entries.filter(message_file_filter()).sort_by(text_order())
}

/// The paths of the unread messages of an inbox, given the names listed in its `new`
/// directory: the message files, sorted by name.
pub fn unread_messages(inbox: &str, new_entries: &Vec<String>) -> (out: Vec<String>)
    ensures
        texts(out@) == unread_files(texts(new_entries@)).map_values(
            |n: Seq<char>| join_spec(folder_in(inbox@, Folder::New), n),
        ),
{
    let files = message_files(new_entries);
    let sorted = sort_texts(&files);
    let dir = folder_of_inbox(inbox, Folder::New);
    paths_in(dir.as_str(), &sorted)
}

/// The path of the message `message_id` in the `state` directory of `inbox`, if the
/// names listed there include its file.
pub fn existing_message(inbox: &str, state: &str, message_id: &str, entries: &Vec<String>) -> (out:
    Option<String>)
    ensures
        opt_view(out) == (if texts(entries@).contains(message_file(message_id@)) {
            Some(join_spec(join_spec(inbox@, state@), message_file(message_id@)))
        } else {
            None
        }),
{
    let file = message_file_name(message_id);
    if contains_text(entries, &file) {
        let dir = join_path(inbox, state);
        Some(join_path(dir.as_str(), file.as_str()))
    } else {
        None
    }
}

/// A directory entry of the mail root.
#[derive(Debug)]
pub struct RootEntry {
    pub name: String,
    pub is_dir: bool,
    /// Whether `<root>/<name>/inbox` is a directory.
    pub has_inbox: bool,
}

/// The entries of the mail root that are mailboxes.
pub open spec fn mailbox_entries(entries: Seq<RootEntry>) -> Seq<RootEntry> {
    entries.filter(|e: RootEntry| e.is_dir && e.has_inbox)
}

/// The inbox directories under the mail root, in listing order: one for each directory
/// that holds an `inbox` directory.
pub fn discover_inboxes(root: &str, entries: &Vec<RootEntry>) -> (out: Vec<String>)
    ensures
        texts(out@) == mailbox_entries(entries@).map_values(
            |e: RootEntry| inbox_spec(root@, e.name@),
        ),
{
    let mut out: Vec<String> = Vec::new();
    let mut i: usize = 0;
    proof {
        reveal(Seq::filter);
        assert(entries@.take(0) =~= Seq::<RootEntry>::empty());
    }
    while i < entries.len()
        invariant
            i <= entries.len(),
            texts(out@) == mailbox_entries(entries@.take(i as int)).map_values(
                |e: RootEntry| inbox_spec(root@, e.name@),
            ),
        decreases entries.len() - i,
    {
        let ghost before = mailbox_entries(entries@.take(i as int));
        proof {
            reveal(Seq::filter);
            assert(entries@.take(i + 1).drop_last() =~= entries@.take(i as int));
        }
        if entries[i].is_dir && entries[i].has_inbox {
            let p = inbox_path(root, entries[i].name.as_str());
            let ghost prev = texts(out@);
            out.push(p);
            assert(texts(out@) =~= prev.push(inbox_spec(root@, entries@[i as int].name@)));
            assert(mailbox_entries(entries@.take(i + 1)) =~= before.push(entries@[i as int]));
            assert(texts(out@) =~= mailbox_entries(entries@.take(i + 1)).map_values(
                |e: RootEntry| inbox_spec(root@, e.name@),
            ));
        } else {
            assert(mailbox_entries(entries@.take(i + 1)) =~= before);
        }
        i = i + 1;
    }
    assert(entries@.take(entries.len() as int) =~= entries@);
    out
}


// ---------------------------------------------------------------------------
// Message IDs

/// The number of characters after the last `/` of `v` (all of them if none).
pub open spec fn tail_len(v: Seq<char>) -> nat
    decreases v.len(),
{
    if v.len() == 0 || v.last() == '/' {
        0
    } else {
        1 + tail_len(v.drop_last())
    }
}

/// The final component of a `/`-separated path, in the manner of `Path::file_name`: empty
/// components (repeated or trailing separators) and `.` components are skipped; there is
/// none if nothing is left or the last component is `..`.
pub open spec fn final_component(v: Seq<char>) -> Option<Seq<char>>
    decreases v.len(),
{
    if v.len() == 0 {
        None
    } else {
        let n = tail_len(v);
        let seg = v.skip(v.len() - n);
        if seg.len() == 0 || seg == seq!['.'] {
            if n >= v.len() {
                None
            } else {
                final_component(v.take(v.len() - n - 1))
            }
        } else if seg == seq!['.', '.'] {
            None
        } else {
            Some(seg)
        }
    }
}

proof fn lemma_tail_len_exact(v: Seq<char>, m: int)
    requires
        0 <= m <= v.len(),
        forall|k: int| v.len() - m <= k < v.len() ==> v[k] != '/',
        m == v.len() || v[v.len() - m - 1] == '/',
    ensures
        tail_len(v) == m,
    decreases m,
{
    if m > 0 {
        assert forall|k: int| v.drop_last().len() - (m - 1) <= k < v.drop_last().len() implies v.drop_last()[k] != '/' by {
            assert(v.drop_last()[k] == v[k]);
        }
        lemma_tail_len_exact(v.drop_last(), m - 1);
    }
}

/// A single component names itself.
pub proof fn lemma_component_is_final(v: Seq<char>)
    requires
        component_ok(v),
    ensures
        final_component(v) == Some(v),
{
    assert forall|k: int| v.len() - v.len() <= k < v.len() implies v[k] != '/' by {
        if v[k] == '/' {
            assert(v.contains('/'));
        }
    }
    lemma_tail_len_exact(v, v.len() as int);
    assert(v.skip(0) =~= v);
}

/// The final component of a path, as `final_component` describes.
pub fn final_component_of(value: &str) -> (out: Option<String>)
    ensures
        opt_view(out) == final_component(value@),
{
    let cs = chars_of(value);
    let mut end: usize = cs.len();
    assert(value@.take(end as int) =~= value@);
    loop
        invariant
            end <= cs.len(),
            cs@ == value@,
            final_component(value@) == final_component(value@.take(end as int)),
        decreases end,
    {
        let ghost v = value@.take(end as int);
        if end == 0 {
            return None;
        }
        let mut start: usize = end;
        while start > 0 && cs[start - 1] != '/'
            invariant
                start <= end <= cs.len(),
                forall|k: int| start <= k < end ==> cs@[k] != '/',
            decreases start,
        {
            start = start - 1;
        }
        proof {
            assert forall|k: int| v.len() - (end - start) <= k < v.len() implies v[k] != '/' by {
                assert(v[k] == cs@[k]);
            }
            if start > 0 {
                assert(v[v.len() - (end - start) - 1] == cs@[start - 1]);
            }
            lemma_tail_len_exact(v, end - start);
        }
        let n = end - start;
        let ghost seg = v.skip(v.len() - n);
        assert(seg =~= cs@.subrange(start as int, end as int));
        let is_dot = n == 1 && cs[start] == '.';
        let is_dot_dot = n == 2 && cs[start] == '.' && cs[start + 1] == '.';
        proof {
            if is_dot {
                assert(seg =~= seq!['.']);
            }
            if seg == seq!['.'] {
                assert(seg[0] == cs@[start as int]);
            }
            if is_dot_dot {
                assert(seg =~= seq!['.', '.']);
            }
            if seg == seq!['.', '.'] {
                assert(seg[0] == cs@[start as int]);
                assert(seg[1] == cs@[start + 1]);
            }
        }
        if n == 0 || is_dot {
            if start == 0 {
                return None;
            }
            assert(v.take(v.len() - n - 1) =~= value@.take(start - 1));
            end = start - 1;
        } else if is_dot_dot {
            return None;
        } else {
            let seg_text = owned(value.substring_char(start, end));
            return Some(seg_text);
        }
    }
}

/// The abstract value of a text result.
pub open spec fn text_result(r: Result<String, MailError>) -> Result<Seq<char>, MailErrorView> {
    match r {
        Ok(s) => Ok(s@),
        Err(e) => Err(e@),
    }
}

/// The message ID that a user's `value` names, given the final path component of `value`:
/// that component without a `.md` extension, which must be non-empty and free of `/` and
/// NUL. Without a final component, `value` is no file name.
pub open spec fn message_id_spec(value: Seq<char>, file_name: Option<Seq<char>>) -> Result<
    Seq<char>,
    MailErrorView,
> {
    match file_name {
        None => Err(MailErrorView::NotAFileName { value }),
        Some(f) => {
            let id = if ".md"@.is_suffix_of(f) {
                f.take(f.len() - 3)
            } else {
                f
            };
            if id.len() == 0 || id.contains('/') || id.contains('\0') {
                Err(MailErrorView::InvalidMessageId { value })
            } else {
                Ok(id)
            }
        },
    }
}

/// The message ID that a user's `value` names, as `message_id_spec` describes it for a
/// given final component.
fn message_id_from_file_name(value: &str, file_name: Option<String>) -> (res: Result<
    String,
    MailError,
>)
    ensures
        text_result(res) == message_id_spec(value@, opt_view(file_name)),
{
    proof {
        reveal_strlit(".md");
    }
    let f = match file_name {
        Some(f) => f,
        None => return Err(MailError::NotAFileName { value: owned(value) }),
    };
    let cs = chars_of(f.as_str());
    let n = cs.len();
    let suffix = ends_with_md(&cs);
    let id = if suffix {
        owned(f.as_str().substring_char(0, n - 3))
    } else {
        f
    };
    assert(suffix ==> id@ =~= f@.take(n - 3));
    if id.as_str().unicode_len() == 0 || contains_char(id.as_str(), '/') || contains_char(
        id.as_str(),
        '\0',
    ) {
        return Err(MailError::InvalidMessageId { value: owned(value) });
    }
    Ok(id)
}

/// The message ID that a user's `value` names, as a file name or a path to one.
pub open spec fn normalized_id(value: Seq<char>) -> Result<Seq<char>, MailErrorView> {
    message_id_spec(value, final_component(value))
}

/// A plain ID without the `.md` extension is its own message ID.
pub proof fn normalized_id_ok(value: Seq<char>)
    requires
        component_ok(value),
        !".md"@.is_suffix_of(value),
    ensures
        normalized_id(value) == Ok::<Seq<char>, MailErrorView>(value),
{
    lemma_component_is_final(value);
}

/// The message ID that a user's `value` names: the final path component of `value`
/// without a `.md` extension. A plain ID without that extension is its own message ID.
pub fn normalize_message_id(value: &str) -> (res: Result<String, MailError>)
    ensures
        text_result(res) == normalized_id(value@),
        component_ok(value@) && !".md"@.is_suffix_of(value@) ==> text_result(res) == Ok::<
            Seq<char>,
            MailErrorView,
        >(value@),
{
    proof {
        if component_ok(value@) {
            lemma_component_is_final(value@);
        }
    }
    let file_name = final_component_of(value);
    message_id_from_file_name(value, file_name)
}

/// The path of a message in an inbox, given the names listed in its `new` and `cur`
/// directories: with a requested ID, that message in `new` or else in `cur`; without
/// one, the first unread message by name.
pub fn find_message(
    inbox: &str,
    requested_id: Option<&str>,
    new_entries: &Vec<String>,
    cur_entries: &Vec<String>,
) -> (res: Result<Option<String>, MailError>)
    ensures
        match requested_id {
            Some(req) => match normalized_id(req@) {
                Err(e) => res matches Err(r) && r@ == e,
                Ok(id) => res matches Ok(found) && opt_view(found) == (if texts(
                    new_entries@,
                ).contains(message_file(id)) {
                    Some(join_spec(join_spec(inbox@, "new"@), message_file(id)))
                } else if texts(cur_entries@).contains(message_file(id)) {
                    Some(join_spec(join_spec(inbox@, "cur"@), message_file(id)))
                } else {
                    None
                }),
            },
            None => res matches Ok(found) && opt_view(found) == (if unread_files(
                texts(new_entries@),
            ).len() > 0 {
                Some(join_spec(folder_in(inbox@, Folder::New), unread_files(texts(new_entries@))[0]))
            } else {
                None
            }),
        },
{
    match requested_id {
        Some(req) => {
            let id = match normalize_message_id(req) {
                Ok(id) => id,
                Err(e) => return Err(e),
            };
            match existing_message(inbox, "new", id.as_str(), new_entries) {
                Some(path) => {
                    assert(texts(new_entries@).contains(message_file(id@)));
                    assert(path@ == join_spec(join_spec(inbox@, "new"@), message_file(id@)));
                    Ok(Some(path))
                },
                None => Ok(existing_message(inbox, "cur", id.as_str(), cur_entries)),
            }
        },
        None => {
            let mut unread = unread_messages(inbox, new_entries);
            let ghost u = texts(unread@);
            let ghost files = unread_files(texts(new_entries@));
            assert(u.len() == files.len());
            assert(unread@.len() == u.len());
            if unread.len() > 0 {
                assert(u[0] == join_spec(folder_in(inbox@, Folder::New), files[0]));
                let first = unread.remove(0);
                assert(first@ == u[0]);
                Ok(Some(first))
            } else {
                Ok(None)
            }
        },
    }
}

} // verus!
