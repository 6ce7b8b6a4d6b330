use vstd::prelude::*;

use crate::error::{MailError, MailErrorView};
use crate::text::{chars_of, contains_char, owned};

verus! {

broadcast use vstd::string::group_string_axioms;

/// A text that can stand as one directory name under the mail root: not empty, not `.`
/// or `..`, and free of `/` and NUL.
pub open spec fn component_ok(value: Seq<char>) -> bool {
    &&& value.len() > 0
    &&& value != seq!['.']
    &&& value != seq!['.', '.']
    &&& !value.contains('/')
    &&& !value.contains('\0')
}

/// A text that can stand as a header value: free of carriage returns and line feeds.
pub open spec fn header_ok(value: Seq<char>) -> bool {
    !value.contains('\r') && !value.contains('\n')
}

/// Refuses a path component that is empty, `.`, `..`, or holds `/` or NUL.
pub fn validate_component(value: &str, label: &str) -> (res: Result<(), MailError>)
    ensures
        res is Ok <==> component_ok(value@),
        res matches Err(e) ==> e@ == (MailErrorView::InvalidComponent {
            label: label@,
            value: value@,
        }),
{
    let cs = chars_of(value);
    let dot_only = cs.len() == 1 && cs[0] == '.';
    let dot_dot = cs.len() == 2 && cs[0] == '.' && cs[1] == '.';
    proof {
        if value@ == seq!['.'] {
            assert(cs@[0] == '.');
        }
        if value@ == seq!['.', '.'] {
            assert(cs@[0] == '.' && cs@[1] == '.');
        }
        if dot_only {
            assert(value@ =~= seq!['.']);
        }
        if dot_dot {
            assert(value@ =~= seq!['.', '.']);
        }
    }
    if cs.len() == 0 || dot_only || dot_dot || contains_char(value, '/') || contains_char(
        value,
        '\0',
    ) {
        return Err(MailError::InvalidComponent { label: owned(label), value: owned(value) });
    }
    Ok(())
}

/// Refuses a header value that holds a carriage return or a line feed.
pub fn validate_header(label: &str, value: &str) -> (res: Result<(), MailError>)
    ensures
        res is Ok <==> header_ok(value@),
        res matches Err(e) ==> e@ == (MailErrorView::HeaderNewline { label: label@ }),
{
    if contains_char(value, '\r') || contains_char(value, '\n') {
        return Err(MailError::HeaderNewline { label: owned(label) });
    }
    Ok(())
}

/// Like `validate_header` for a header that may be absent; an absent header passes.
pub fn validate_optional_header(label: &str, value: Option<&str>) -> (res: Result<(), MailError>)
    ensures
        res is Ok <==> (value matches Some(v) ==> header_ok(v@)),
        res matches Err(e) ==> e@ == (MailErrorView::HeaderNewline { label: label@ }),
{
    if let Some(value) = value {
        validate_header(label, value)?;
    }
    Ok(())
}

} // verus!
