use vstd::prelude::*;
use vstd::string::*;
use vstd::utf8::*;

use crate::error::GxsyncError;
use crate::filter::{trim_of, trimmed};
use crate::text::utf8_text;

verus! {

/// The first line of a text as `str::lines` yields it: everything before
/// the first line feed, without a carriage return that ends it; `None` for
/// the empty text.
pub open spec fn first_line(s: Seq<char>) -> Option<Seq<char>> {
    if s.len() == 0 {
        None
    } else {
        let end = if exists|i: int| 0 <= i < s.len() && s[i] == '\n' {
            choose|i: int| 0 <= i < s.len() && s[i] == '\n' && forall|j: int| 0 <= j < i ==> s[j] != '\n'
        } else {
            s.len() as int
        };
        let line = s.subrange(0, end);
        if line.len() > 0 && line.last() == '\r' {
            Some(line.drop_last())
        } else {
            Some(line)
        }
    }
}

/// The bearer token that a credential helper printed: its first line of
/// output, trimmed. Output that is not UTF-8, and empty output, are
/// authentication errors.
pub fn token_from_output(stdout: &[u8]) -> (r: Result<String, GxsyncError>)
    ensures
        !valid_utf8(stdout@) ==> match r {
            Err(GxsyncError::Auth(m)) => m@ == "failed to parse msoauth output"@,
            _ => false,
        },
        valid_utf8(stdout@) ==> match first_line(decode_utf8(stdout@)) {
            Some(line) => r is Ok && r->Ok_0@ == trim_of(line),
            None => match r {
                Err(GxsyncError::Auth(m)) => m@ == "no output from msoauth"@,
                _ => false,
            },
        },
{
    let text = match utf8_text(stdout) {
        Some(t) => t,
        None => {
            return Err(GxsyncError::Auth(String::from_str("failed to parse msoauth output")));
        },
    };
    let s = text.as_str();
    let n = s.unicode_len();
    if n == 0 {
        return Err(GxsyncError::Auth(String::from_str("no output from msoauth")));
    }
    let mut end: usize = 0;
    while end < n && s.get_char(end) != '\n'
        invariant
            n == s@.len(),
            end <= n,
            forall|j: int| 0 <= j < end ==> s@[j] != '\n',
        decreases n - end,
    {
        end = end + 1;
    }
    proof {
        if end < n {
            assert(s@[end as int] == '\n');
            let c = choose|i: int| 0 <= i < s@.len() && s@[i] == '\n' && forall|j: int| 0 <= j < i ==> s@[j] != '\n';
            assert(c == end as int) by {
                if c < end as int {
                    assert(s@[c] != '\n');
                }
                if c > end as int {
                    assert(s@[end as int] != '\n');
                }
            }
        } else {
            assert(!exists|i: int| 0 <= i < s@.len() && s@[i] == '\n');
        }
    }
    let mut stop = end;
    if end > 0 && s.get_char(end - 1) == '\r' {
        stop = end - 1;
    }
    let line = s.substring_char(0, stop);
    proof {
        if end > 0 {
            assert(s@.subrange(0, end as int).drop_last() =~= s@.subrange(0, end as int - 1));
        }
    }
    let t = trimmed(line);
    Ok(t.to_owned())
}

} // verus!
