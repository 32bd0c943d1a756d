//! The per-user named pipe that the extension and the server share.
use vstd::prelude::*;
use crate::text::{chars_to_string, extend_chars, extend_str, str_chars};

verus! {

/// The pipe name's fixed prefix: `\\.\pipe\textractor_media_bridge`.
pub open spec fn pipe_prefix() -> Seq<char> {
    "\\\\.\\pipe\\textractor_media_bridge"@
}

/// The pipe name's protocol suffix.
pub open spec fn pipe_protocol_suffix() -> Seq<char> {
    "v1"@
}

/// The characters a SID keeps in a pipe name.
pub open spec fn is_pipe_name_char(c: char) -> bool {
    ('a' <= c <= 'z') || ('A' <= c <= 'Z') || ('0' <= c <= '9') || c == '-' || c == '_'
}

/// The characters of `s` that a pipe name keeps, in order.
pub open spec fn sanitize_sid(s: Seq<char>) -> Seq<char>
    decreases s.len(),
{
    if s.len() == 0 {
        s
    } else if is_pipe_name_char(s.last()) {
        sanitize_sid(s.drop_last()).push(s.last())
    } else {
        sanitize_sid(s.drop_last())
    }
}

/// The pipe name for a user's SID.
pub open spec fn pipe_name_spec(sid: Seq<char>) -> Seq<char> {
    pipe_prefix() + "_"@ + sanitize_sid(sid) + "_"@ + pipe_protocol_suffix()
}

/// The pipe name for a user's SID: the prefix, `_`, the SID's ASCII letters, digits,
/// `-` and `_`, then `_v1`.
pub fn pipe_name_from_sid(sid: &str) -> (name: String)
    ensures
        name@ == pipe_name_spec(sid@),
{
    let chars = str_chars(sid);
    let mut kept: Vec<char> = Vec::new();
    let mut i: usize = 0;
    while i < chars.len()
        invariant
            i <= chars@.len(),
            kept@ == sanitize_sid(chars@.take(i as int)),
        decreases chars@.len() - i,
    {
        let c = chars[i];
        assert(chars@.take(i as int + 1).drop_last() =~= chars@.take(i as int));
        if ('a' <= c && c <= 'z') || ('A' <= c && c <= 'Z') || ('0' <= c && c <= '9') || c == '-'
            || c == '_' {
            kept.push(c);
        }
        i = i + 1;
    }
    assert(chars@.take(chars@.len() as int) =~= chars@);
    let mut v: Vec<char> = Vec::new();
    extend_str(&mut v, "\\\\.\\pipe\\textractor_media_bridge");
    extend_str(&mut v, "_");
    extend_chars(&mut v, &kept);
    extend_str(&mut v, "_");
    extend_str(&mut v, "v1");
    chars_to_string(&v)
}

/// The pipe name for the current user, whose SID is `sid` where it could be read;
/// `unknown_user` stands in where it could not.
pub fn default_pipe_name(sid: Option<String>) -> (name: String)
    ensures
        name@ == pipe_name_spec(
            match sid {
                Some(s) => s@,
                None => "unknown_user"@,
            },
        ),
{
    match sid {
        Some(s) => pipe_name_from_sid(s.as_str()),
        None => pipe_name_from_sid("unknown_user"),
    }
}

} // verus!
