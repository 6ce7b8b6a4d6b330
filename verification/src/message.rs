use vstd::prelude::*;
use vstd::string::StrSliceExecFns;
use vstd::string::StringExecFns;

use crate::error::{MailError, MailErrorView};
use crate::text::{chars_of, concat, owned};
use crate::validate::header_ok;

verus! {

broadcast use vstd::string::group_string_axioms;

/// The abstract value of an optional text.
pub open spec fn opt_view(value: Option<String>) -> Option<Seq<char>> {
    match value {
        Some(s) => Some(s@),
        None => None,
    }
}

/// The abstract value of an optional borrowed text.
pub open spec fn opt_str_view(value: Option<&str>) -> Option<Seq<char>> {
    match value {
        Some(s) => Some(s@),
        None => None,
    }
}

// ---------------------------------------------------------------------------
// Dates

/// What `chrono` writes, with the pattern `%Y-%m-%dT%H:%M:%SZ`, for the UTC instant that
/// lies `seconds` after the Unix epoch; `None` where `chrono` cannot represent it.
pub uninterp spec fn utc_date_text(seconds: int) -> Option<Seq<char>>;

/// A character that the date pattern can produce: a digit, a sign, or one of the literal
/// characters of the pattern.
pub open spec fn date_char(c: char) -> bool {
    ('0' <= c && c <= '9') || c == '-' || c == '+' || c == ':' || c == 'T' || c == 'Z'
}

/// The first second after the end of the year 9999, in Unix time: up to it the date
/// pattern writes a year of four digits.
pub const FOUR_DIGIT_YEARS_END: i64 = 253402300800;

/// Whether a position of the date pattern's output holds a digit: every position but the
/// separators at 4, 7, 10, 13, 16 and 19.
pub open spec fn date_digit_at(i: int) -> bool {
    i != 4 && i != 7 && i != 10 && i != 13 && i != 16 && i != 19
}

/// The shape `YYYY-MM-DDTHH:MM:SSZ`: twenty characters, digits but for the separators.
pub open spec fn date_shape(t: Seq<char>) -> bool {
    &&& t.len() == 20
    &&& t[4] == '-' && t[7] == '-' && t[10] == 'T'
    &&& t[13] == ':' && t[16] == ':' && t[19] == 'Z'
    &&& forall|i: int| 0 <= i < 20 && date_digit_at(i) ==> '0' <= #[trigger] t[i] <= '9'
}

/// Whether `y` is a leap year of the Gregorian calendar.
pub open spec fn leap_year(y: int) -> bool {
    y % 4 == 0 && (y % 100 != 0 || y % 400 == 0)
}

/// The number of days of year `y`.
pub open spec fn year_days(y: int) -> int {
    if leap_year(y) {
        366
    } else {
        365
    }
}

/// The number of days of month `m` (1 to 12) of year `y`.
pub open spec fn month_days(y: int, m: int) -> int {
    if m == 2 {
        if leap_year(y) {
            29
        } else {
            28
        }
    } else if m == 4 || m == 6 || m == 9 || m == 11 {
        30
    } else {
        31
    }
}

/// The year, and the day within it counted from 0, that lies `days` days after the first
/// of January of year `y`.
pub open spec fn year_and_day(y: int, days: nat) -> (int, nat)
    decreases days,
{
    if days < year_days(y) {
        (y, days)
    } else {
        year_and_day(y + 1, (days - year_days(y)) as nat)
    }
}

/// The month, and the day within it counted from 1, of day `day` (counted from 0) of
/// year `y`, counting from month `m`.
pub open spec fn month_and_day(y: int, m: int, day: nat) -> (int, int)
    decreases 12 - m,
{
    if m >= 12 || day < month_days(y, m) {
        (m, day + 1int)
    } else {
        month_and_day(y, m + 1, (day - month_days(y, m)) as nat)
    }
}

/// The decimal digit for the last place of `n`.
pub open spec fn last_digit(n: int) -> char {
    let k = n % 10;
    if k == 0 {
        '0'
    } else if k == 1 {
        '1'
    } else if k == 2 {
        '2'
    } else if k == 3 {
        '3'
    } else if k == 4 {
        '4'
    } else if k == 5 {
        '5'
    } else if k == 6 {
        '6'
    } else if k == 7 {
        '7'
    } else if k == 8 {
        '8'
    } else {
        '9'
    }
}

/// The UTC date and time `seconds` (at least 0) after the Unix epoch, written
/// `YYYY-MM-DDTHH:MM:SSZ` in the Gregorian calendar, each number zero-padded to its width.
pub open spec fn utc_text(seconds: int) -> Seq<char> {
    let (y, doy) = year_and_day(1970, (seconds / 86400) as nat);
    let (m, d) = month_and_day(y, 1, doy);
    let t = seconds % 86400;
    let (h, mi, se) = (t / 3600, t / 60 % 60, t % 60);
    seq![
        last_digit(y / 1000), last_digit(y / 100), last_digit(y / 10), last_digit(y), '-',
        last_digit(m / 10), last_digit(m), '-', last_digit(d / 10), last_digit(d), 'T',
        last_digit(h / 10), last_digit(h), ':', last_digit(mi / 10), last_digit(mi), ':',
        last_digit(se / 10), last_digit(se), 'Z',
    ]
}

proof fn lemma_last_digit(n: int)
    ensures
        '0' <= last_digit(n) <= '9',
{
}

/// The date text always has the shape `YYYY-MM-DDTHH:MM:SSZ`.
pub proof fn lemma_utc_text_shape(seconds: int)
    ensures
        date_shape(utc_text(seconds)),
        forall|i: int|
            0 <= i < utc_text(seconds).len() ==> date_char(#[trigger] utc_text(seconds)[i]),
{
    let t = utc_text(seconds);
    assert(t.len() == 20);
    assert forall|i: int| 0 <= i < 20 implies (date_digit_at(i) ==> '0' <= #[trigger] t[i] <= '9')
        && date_char(t[i]) by {
        let (y, doy) = year_and_day(1970, (seconds / 86400) as nat);
        let (m, d) = month_and_day(y, 1, doy);
        let r = seconds % 86400;
        lemma_last_digit(y / 1000);
        lemma_last_digit(y / 100);
        lemma_last_digit(y / 10);
        lemma_last_digit(y);
        lemma_last_digit(m / 10);
        lemma_last_digit(m);
        lemma_last_digit(d / 10);
        lemma_last_digit(d);
        lemma_last_digit(r / 3600 / 10);
        lemma_last_digit(r / 3600);
        lemma_last_digit(r / 60 % 60 / 10);
        lemma_last_digit(r / 60 % 60);
        lemma_last_digit(r % 60 / 10);
        lemma_last_digit(r % 60);
    }
}

/// Calls `chrono::DateTime::<Utc>::from_timestamp(seconds, 0)` and, where that gives an
/// instant, its `format("%Y-%m-%dT%H:%M:%SZ")`. The contract names the result and states,
/// from the documented meaning of each specifier (zero-padded numbers, a sign for years
/// beyond four digits), which characters it can hold. As chrono documents `None` only for
/// seconds outside its range of years, counts in the proleptic Gregorian calendar without
/// leap seconds, and writes years 0 to 9999 with four digits, it also states the text for
/// an instant from the epoch to the end of year 9999: `utc_text`. Outside that span the
/// text is only named.
#[verifier::external_body]
fn utc_date(seconds: i64) -> (out: Option<String>)
    ensures
        opt_view(out) == utc_date_text(seconds as int),
        out matches Some(t) ==> forall|i: int| 0 <= i < t@.len() ==> date_char(#[trigger] t@[i]),
        out is None ==> !(0 <= seconds && seconds < FOUR_DIGIT_YEARS_END),
        out matches Some(t) ==> (0 <= seconds && seconds < FOUR_DIGIT_YEARS_END ==> t@ == utc_text(
            seconds as int,
        )),
{
    match chrono::DateTime::from_timestamp(seconds, 0) {
        Some(date) => Some(date.format("%Y-%m-%dT%H:%M:%SZ").to_string()),
        None => None,
    }
}

/// The date text for a Unix time in seconds, as `utc_date_text` names it; from the epoch
/// to the end of year 9999 it is `utc_text`.
pub fn date_text(seconds: i64) -> (out: Option<String>)
    ensures
        opt_view(out) == utc_date_text(seconds as int),
        out matches Some(t) ==> forall|i: int| 0 <= i < t@.len() ==> date_char(#[trigger] t@[i]),
        0 <= seconds < FOUR_DIGIT_YEARS_END ==> (out matches Some(t) && t@ == utc_text(
            seconds as int,
        ) && date_shape(t@)),
{
    proof {
        lemma_utc_text_shape(seconds as int);
    }
    utc_date(seconds)
}

// ---------------------------------------------------------------------------
// Writing a message

/// One header line: the name, a colon and a space, the value and a line feed.
pub open spec fn header_line(name: Seq<char>, value: Seq<char>) -> Seq<char> {
    name + ": "@ + value + "\n"@
}

/// A header line that is written only when the value is present.
pub open spec fn optional_header_line(name: Seq<char>, value: Option<Seq<char>>) -> Seq<char> {
    match value {
        Some(v) => header_line(name, v),
        None => Seq::empty(),
    }
}

/// The body as stored: followed by a line feed unless it already ends with one.
pub open spec fn stored_body(body: Seq<char>) -> Seq<char> {
    if body.len() > 0 && body.last() == '\n' {
        body
    } else {
        body + "\n"@
    }
}

/// The full text of a message: its header block, a blank line, then the body.
pub open spec fn message_text(
    from: Seq<char>,
    to: Seq<char>,
    reply_to: Option<Seq<char>>,
    date: Seq<char>,
    message_id: Seq<char>,
    in_reply_to: Option<Seq<char>>,
    subject: Seq<char>,
    body: Seq<char>,
) -> Seq<char> {
    header_line("From"@, from) + (header_line("To"@, to) + (optional_header_line(
        "Reply-To"@,
        reply_to,
    ) + (header_line("Date"@, date) + (header_line("Message-ID"@, message_id) + (
    optional_header_line("In-Reply-To"@, in_reply_to) + (header_line("Subject"@, subject) + (
    "\n"@ + stored_body(body))))))))
}

proof fn lemma_regroup(
    a: Seq<char>,
    b: Seq<char>,
    c: Seq<char>,
    d: Seq<char>,
    e: Seq<char>,
    f: Seq<char>,
    g: Seq<char>,
    h: Seq<char>,
    i: Seq<char>,
)
    ensures
        a + b + c + d + e + f + g + h + i == a + (b + (c + (d + (e + (f + (g + (h + i))))))),
{
    assert(a + b + c + d + e + f + g + h + i =~= a + (b + (c + (d + (e + (f + (g + (h + i))))))));
}

fn push_header(message: &mut String, name: &str, value: &str)
    ensures
        final(message)@ == old(message)@ + header_line(name@, value@),
{
    message.append(name);
    message.append(": ");
    message.append(value);
    message.append("\n");
}

/// Writes a message in the mail format that `scan` and `read` understand. The date is
/// given as a Unix time in seconds and written in UTC; it fails only where that time
/// cannot be written as a date.
pub fn format_message(
    from: &str,
    to: &str,
    reply_to: Option<&str>,
    date: i64,
    message_id: &str,
    in_reply_to: Option<&str>,
    subject: &str,
    body: &str,
) -> (res: Result<String, MailError>)
    ensures
        res is Ok <==> utc_date_text(date as int) is Some,
        0 <= date < FOUR_DIGIT_YEARS_END ==> res is Ok && utc_date_text(date as int) == Some(
            utc_text(date as int),
        ),
        res matches Ok(m) ==> m@ == message_text(
            from@,
            to@,
            opt_str_view(reply_to),
            utc_date_text(date as int)->0,
            message_id@,
            opt_str_view(in_reply_to),
            subject@,
            body@,
        ),
        res matches Err(e) ==> e@ == MailErrorView::DateOutOfRange,
{
    let date_text = match utc_date(date) {
        Some(t) => t,
        None => return Err(MailError::DateOutOfRange),
    };
    let mut message = owned("");
    proof {
        reveal_strlit("");
    }
    push_header(&mut message, "From", from);
    push_header(&mut message, "To", to);
    let ghost m2 = message@;
    if let Some(reply_to) = reply_to {
        push_header(&mut message, "Reply-To", reply_to);
    }
    assert(message@ =~= m2 + optional_header_line("Reply-To"@, opt_str_view(reply_to)));
    push_header(&mut message, "Date", date_text.as_str());
    push_header(&mut message, "Message-ID", message_id);
    let ghost m5 = message@;
    if let Some(in_reply_to) = in_reply_to {
        push_header(&mut message, "In-Reply-To", in_reply_to);
    }
    assert(message@ =~= m5 + optional_header_line("In-Reply-To"@, opt_str_view(in_reply_to)));
    push_header(&mut message, "Subject", subject);
    message.append("\n");
    let ghost m8 = message@;
    message.append(body);
    let n = body.unicode_len();
    if n == 0 || body.get_char(n - 1) != '\n' {
        message.append("\n");
        assert(message@ =~= m8 + stored_body(body@));
    } else {
        assert(message@ =~= m8 + stored_body(body@));
    }
    proof {
        lemma_regroup(
            header_line("From"@, from@),
            header_line("To"@, to@),
            optional_header_line("Reply-To"@, opt_str_view(reply_to)),
            header_line("Date"@, date_text@),
            header_line("Message-ID"@, message_id@),
            optional_header_line("In-Reply-To"@, opt_str_view(in_reply_to)),
            header_line("Subject"@, subject@),
            "\n"@,
            stored_body(body@),
        );
    }
    Ok(message)
}


// ---------------------------------------------------------------------------
// Reading a header back

/// The number of characters before the first line feed of `s` (all of them if none).
pub open spec fn line_len(s: Seq<char>) -> nat
    decreases s.len(),
{
    if s.len() == 0 {
        0
    } else if s[0] == '\n' {
        0
    } else {
        1 + line_len(s.drop_first())
    }
}

/// The first line of `s` as `str::lines` yields it: the characters before the first line
/// feed, without the carriage return that precedes that line feed.
pub open spec fn first_line(s: Seq<char>) -> Seq<char> {
    let n = line_len(s);
    if n < s.len() && n > 0 && s[n - 1] == '\r' {
        s.take(n - 1)
    } else {
        s.take(n as int)
    }
}

/// The value of the first header line, in the header block at the start of `s`, that
/// begins with `prefix`: the header block is the lines before the first empty line.
#[verifier::opaque]
pub open spec fn header_value(s: Seq<char>, prefix: Seq<char>) -> Option<Seq<char>>
    decreases s.len(),
{
    if s.len() == 0 {
        None
    } else {
        let n = line_len(s);
        let line = first_line(s);
        if line.len() == 0 {
            None
        } else if prefix.is_prefix_of(line) {
            Some(line.skip(prefix.len() as int))
        } else if n >= s.len() {
            None
        } else {
            header_value(s.skip(n + 1int), prefix)
        }
    }
}

pub proof fn lemma_line_len_exact(s: Seq<char>, m: int)
    requires
        0 <= m <= s.len(),
        forall|k: int| 0 <= k < m ==> s[k] != '\n',
        m == s.len() || s[m] == '\n',
    ensures
        line_len(s) == m,
    decreases m,
{
    if m > 0 {
        lemma_line_len_exact(s.drop_first(), m - 1);
    }
}

/// Finds the value of a header in a message's header block (`None` if the block holds no
/// such header).
pub fn message_header(contents: &str, header: &str) -> (value: Option<String>)
    ensures
        opt_view(value) == header_value(contents@, header@ + ": "@),
{
    let prefix_text = concat(header, ": ");
    let prefix = chars_of(prefix_text.as_str());
    let ghost p = header@ + ": "@;
    let cs = chars_of(contents);
    let mut start: usize = 0;
    assert(cs@.skip(0) =~= cs@);
    proof {
        reveal(header_value);
    }
    loop
        invariant
            prefix@ == p,
            p == header@ + ": "@,
            cs@ == contents@,
            start <= cs.len(),
            header_value(cs@, p) == header_value(cs@.skip(start as int), p),
        decreases cs.len() - start,
    {
        let ghost s = cs@.skip(start as int);
        proof {
            reveal(header_value);
        }
        if start == cs.len() {
            return None;
        }
        let mut end: usize = start;
        while end < cs.len() && cs[end] != '\n'
            invariant
                start <= end <= cs.len(),
                forall|k: int| start <= k < end ==> cs@[k] != '\n',
            decreases cs.len() - end,
        {
            end = end + 1;
        }
        proof {
            lemma_line_len_exact(s, end - start);
        }
        let mut line_end = end;
        if end < cs.len() && end > start && cs[end - 1] == '\r' {
            line_end = end - 1;
        }
        assert(first_line(s) =~= cs@.subrange(start as int, line_end as int));
        if line_end == start {
            return None;
        }
        // does the line begin with the prefix?
        let plen = prefix.len();
        let mut matches = plen <= line_end - start;
        if matches {
            let mut k: usize = 0;
            while k < plen
                invariant
                    plen == prefix.len(),
                    plen <= line_end - start,
                    line_end <= cs.len(),
                    k <= plen,
                    matches ==> forall|j: int| 0 <= j < k ==> prefix@[j] == cs@[start + j],
                    !matches ==> exists|j: int| 0 <= j < plen && prefix@[j] != cs@[start + j],
                decreases plen - k,
            {
                if prefix[k] != cs[start + k] {
                    matches = false;
                }
                k = k + 1;
            }
        }
        let ghost line = cs@.subrange(start as int, line_end as int);
        assert(matches == prefix@.is_prefix_of(line)) by {
            if prefix@.is_prefix_of(line) && !matches && prefix@.len() <= line.len() {
                let j = choose|j: int| 0 <= j < plen && prefix@[j] != cs@[start + j];
                assert(line[j] == cs@[start + j]);
                assert(prefix@[j] == line.subrange(0, plen as int)[j]);
            }
            if matches {
                assert(prefix@ =~= line.subrange(0, plen as int));
            }
        }
        if matches {
            let found = contents.substring_char(start + plen, line_end);
            assert(found@ =~= line.skip(plen as int));
            return Some(owned(found));
        }
        if end == cs.len() {
            return None;
        }
        assert(s.skip(end - start + 1) =~= cs@.skip(end + 1));
        start = end + 1;
    }
}


/// Reading the first line of a text that starts with a header line `name: value`.
proof fn lemma_header_line_step(name: Seq<char>, value: Seq<char>, rest: Seq<char>, p: Seq<char>)
    requires
        name.len() > 0,
        header_ok(name),
        header_ok(value),
    ensures
        header_value(header_line(name, value) + rest, p) == (if p.is_prefix_of(name + ": "@ + value) {
            Some((name + ": "@ + value).skip(p.len() as int))
        } else {
            header_value(rest, p)
        }),
{
    reveal(header_value);
    reveal_strlit(": ");
    reveal_strlit("\n");
    let line = name + ": "@ + value;
    let s = header_line(name, value) + rest;
    assert(s =~= line + seq!['\n'] + rest);
    assert forall|k: int| 0 <= k < line.len() implies s[k] != '\n' by {
        assert(s[k] == line[k]);
        if k < name.len() {
            assert(line[k] == name[k]);
        } else if k >= name.len() + 2 {
            assert(line[k] == value[k - name.len() - 2]);
        }
    }
    lemma_line_len_exact(s, line.len() as int);
    let n = line.len();
    assert(s[n - 1] != '\r') by {
        if value.len() > 0 {
            assert(s[n - 1] == value[value.len() - 1]);
        } else {
            assert(s[n - 1] == ' ');
        }
    }
    assert(first_line(s) =~= line);
    assert(s.skip(n + 1int) =~= rest);
}

proof fn lemma_skip_header_line(name: Seq<char>, value: Seq<char>, rest: Seq<char>, p: Seq<char>)
    requires
        name.len() > 0,
        p.len() > 0,
        name[0] != p[0],
        header_ok(name),
        header_ok(value),
    ensures
        header_value(header_line(name, value) + rest, p) == header_value(rest, p),
{
    lemma_header_line_step(name, value, rest, p);
    assert(!p.is_prefix_of(name + ": "@ + value)) by {
        assert((name + ": "@ + value)[0] == name[0]);
    }
}

proof fn lemma_skip_optional_line(
    name: Seq<char>,
    value: Option<Seq<char>>,
    rest: Seq<char>,
    p: Seq<char>,
)
    requires
        name.len() > 0,
        p.len() > 0,
        name[0] != p[0],
        header_ok(name),
        value matches Some(v) ==> header_ok(v),
    ensures
        header_value(optional_header_line(name, value) + rest, p) == header_value(rest, p),
{
    match value {
        Some(v) => lemma_skip_header_line(name, v, rest, p),
        None => {
            assert(optional_header_line(name, value) + rest =~= rest);
        },
    }
}

proof fn lemma_header_names()
    ensures
        header_ok("From"@),
        header_ok("To"@),
        header_ok("Reply-To"@),
        header_ok("Date"@),
        header_ok("Message-ID"@),
        header_ok("In-Reply-To"@),
        header_ok("Subject"@),
        "From"@.len() > 0 && "From"@[0] == 'F',
        "To"@.len() > 0 && "To"@[0] == 'T',
        "Reply-To"@.len() > 0 && "Reply-To"@[0] == 'R',
        "Date"@.len() > 0 && "Date"@[0] == 'D',
        "Message-ID"@.len() > 0 && "Message-ID"@[0] == 'M',
        "In-Reply-To"@.len() > 0 && "In-Reply-To"@[0] == 'I',
        "Subject"@.len() > 0 && "Subject"@[0] == 'S',
        ("Subject"@ + ": "@).len() > 0 && ("Subject"@ + ": "@)[0] == 'S',
{
    reveal_strlit("From");
    reveal_strlit("To");
    reveal_strlit("Reply-To");
    reveal_strlit("Date");
    reveal_strlit("Message-ID");
    reveal_strlit("In-Reply-To");
    reveal_strlit("Subject");
    reveal_strlit(": ");
    assert(header_ok("From"@));
    assert(header_ok("To"@));
    assert(header_ok("Reply-To"@));
    assert(header_ok("Date"@));
    assert(header_ok("Message-ID"@));
    assert(header_ok("In-Reply-To"@));
    assert(header_ok("Subject"@));
}

proof fn lemma_date_header_ok(date: Seq<char>)
    requires
        forall|i: int| 0 <= i < date.len() ==> date_char(#[trigger] date[i]),
    ensures
        header_ok(date),
{
    if date.contains('\r') {
        let i = choose|i: int| 0 <= i < date.len() && date[i] == '\r';
        assert(date_char(date[i]));
    }
    if date.contains('\n') {
        let i = choose|i: int| 0 <= i < date.len() && date[i] == '\n';
        assert(date_char(date[i]));
    }
}

/// An empty line ends the header block: nothing after it is a header.
proof fn lemma_blank_line_ends(rest: Seq<char>, p: Seq<char>)
    ensures
        header_value("\n"@ + rest, p) is None,
{
    reveal(header_value);
    reveal_strlit("\n");
    let s = "\n"@ + rest;
    assert(s[0] == '\n');
    assert(line_len(s) == 0);
    assert(first_line(s).len() == 0);
}

/// A header line is read back under its own name.
proof fn lemma_read_line(name: Seq<char>, value: Seq<char>, rest: Seq<char>)
    requires
        name.len() > 0,
        header_ok(name),
        header_ok(value),
    ensures
        header_value(header_line(name, value) + rest, name + ": "@) == Some(value),
{
    let p = name + ": "@;
    lemma_header_line_step(name, value, rest, p);
    assert((name + ": "@ + value).subrange(0, p.len() as int) =~= p);
    assert(p.is_prefix_of(name + ": "@ + value));
    assert((name + ": "@ + value).skip(p.len() as int) =~= value);
}

/// The values that `format_message` writes in a header block it can read back: no value
/// holds a line break, and the date holds only characters of the date pattern.
pub open spec fn header_values_ok(
    from: Seq<char>,
    to: Seq<char>,
    reply_to: Option<Seq<char>>,
    date: Seq<char>,
    message_id: Seq<char>,
    in_reply_to: Option<Seq<char>>,
    subject: Seq<char>,
) -> bool {
    &&& header_ok(from)
    &&& header_ok(to)
    &&& reply_to matches Some(r) ==> header_ok(r)
    &&& forall|i: int| 0 <= i < date.len() ==> date_char(#[trigger] date[i])
    &&& header_ok(message_id)
    &&& in_reply_to matches Some(r) ==> header_ok(r)
    &&& header_ok(subject)
}

/// A header written by `format_message` is found again by `message_header`: every header
/// gives back the value written under it, and an optional header that was not written is
/// not found.
pub proof fn lemma_written_headers_read_back(
    from: Seq<char>,
    to: Seq<char>,
    reply_to: Option<Seq<char>>,
    date: Seq<char>,
    message_id: Seq<char>,
    in_reply_to: Option<Seq<char>>,
    subject: Seq<char>,
    body: Seq<char>,
)
    requires
        header_values_ok(from, to, reply_to, date, message_id, in_reply_to, subject),
    ensures
        ({
            let m = message_text(from, to, reply_to, date, message_id, in_reply_to, subject, body);
            &&& header_value(m, "From"@ + ": "@) == Some(from)
            &&& header_value(m, "To"@ + ": "@) == Some(to)
            &&& header_value(m, "Reply-To"@ + ": "@) == reply_to
            &&& header_value(m, "Date"@ + ": "@) == Some(date)
            &&& header_value(m, "Message-ID"@ + ": "@) == Some(message_id)
            &&& header_value(m, "In-Reply-To"@ + ": "@) == in_reply_to
            &&& header_value(m, "Subject"@ + ": "@) == Some(subject)
        }),
{
    lemma_header_names();
    lemma_date_header_ok(date);
    let pf = "From"@ + ": "@;
    let pt = "To"@ + ": "@;
    let pr = "Reply-To"@ + ": "@;
    let pd = "Date"@ + ": "@;
    let pm = "Message-ID"@ + ": "@;
    let pi = "In-Reply-To"@ + ": "@;
    let ps = "Subject"@ + ": "@;
    assert(pf[0] == 'F' && pt[0] == 'T' && pr[0] == 'R' && pd[0] == 'D');
    assert(pm[0] == 'M' && pi[0] == 'I' && ps[0] == 'S');
    let tail = "\n"@ + stored_body(body);
    let l7 = header_line("Subject"@, subject) + tail;
    let l6 = optional_header_line("In-Reply-To"@, in_reply_to) + l7;
    let l5 = header_line("Message-ID"@, message_id) + l6;
    let l4 = header_line("Date"@, date) + l5;
    let l3 = optional_header_line("Reply-To"@, reply_to) + l4;
    let l2 = header_line("To"@, to) + l3;
    let l1 = header_line("From"@, from) + l2;
    assert(l1 == message_text(from, to, reply_to, date, message_id, in_reply_to, subject, body));
    // From
    lemma_read_line("From"@, from, l2);
    // To
    lemma_skip_header_line("From"@, from, l2, pt);
    lemma_read_line("To"@, to, l3);
    // Reply-To
    lemma_skip_header_line("From"@, from, l2, pr);
    lemma_skip_header_line("To"@, to, l3, pr);
    match reply_to {
        Some(r) => lemma_read_line("Reply-To"@, r, l4),
        None => {
            assert(l3 =~= l4);
            lemma_skip_header_line("Date"@, date, l5, pr);
            lemma_skip_header_line("Message-ID"@, message_id, l6, pr);
            lemma_skip_optional_line("In-Reply-To"@, in_reply_to, l7, pr);
            lemma_skip_header_line("Subject"@, subject, tail, pr);
            lemma_blank_line_ends(stored_body(body), pr);
        },
    }
    // Date
    lemma_skip_header_line("From"@, from, l2, pd);
    lemma_skip_header_line("To"@, to, l3, pd);
    lemma_skip_optional_line("Reply-To"@, reply_to, l4, pd);
    lemma_read_line("Date"@, date, l5);
    // Message-ID
    lemma_skip_header_line("From"@, from, l2, pm);
    lemma_skip_header_line("To"@, to, l3, pm);
    lemma_skip_optional_line("Reply-To"@, reply_to, l4, pm);
    lemma_skip_header_line("Date"@, date, l5, pm);
    lemma_read_line("Message-ID"@, message_id, l6);
    // In-Reply-To
    lemma_skip_header_line("From"@, from, l2, pi);
    lemma_skip_header_line("To"@, to, l3, pi);
    lemma_skip_optional_line("Reply-To"@, reply_to, l4, pi);
    lemma_skip_header_line("Date"@, date, l5, pi);
    lemma_skip_header_line("Message-ID"@, message_id, l6, pi);
    match in_reply_to {
        Some(r) => lemma_read_line("In-Reply-To"@, r, l7),
        None => {
            assert(l6 =~= l7);
            lemma_skip_header_line("Subject"@, subject, tail, pi);
            lemma_blank_line_ends(stored_body(body), pi);
        },
    }
    // Subject
    lemma_skip_header_line("From"@, from, l2, ps);
    lemma_skip_header_line("To"@, to, l3, ps);
    lemma_skip_optional_line("Reply-To"@, reply_to, l4, ps);
    lemma_skip_header_line("Date"@, date, l5, ps);
    lemma_skip_header_line("Message-ID"@, message_id, l6, ps);
    lemma_skip_optional_line("In-Reply-To"@, in_reply_to, l7, ps);
    lemma_read_line("Subject"@, subject, tail);
}

} // verus!
