use vstd::prelude::*;

use crate::text::{chars_of, push_all, slice_chars, string_of};

verus! {

/// Longest description shown in a listing.
pub const DESC_MAX_LEN: usize = 24;

/// One row of a template listing.
pub struct TemplateRow {
    pub name: String,
    pub description: String,
    pub updated_at: String,
    pub created_at: String,
}

/// Index of the first `\n` of `s` at or after `i`, or -1.
pub open spec fn newline_from(s: Seq<char>, i: int) -> int
    decreases s.len() - i,
{
    if i < 0 || i >= s.len() {
        -1
    } else if s[i] == '\n' {
        i
    } else {
        newline_from(s, i + 1)
    }
}

/// The first line of `s`, as `str::lines` gives it: the text before the
/// first `\n`, without a `\r` right before that `\n`; all of `s` where it
/// holds no `\n`.
pub open spec fn first_line(s: Seq<char>) -> Seq<char> {
    let nl = newline_from(s, 0);
    if nl < 0 {
        s
    } else if nl > 0 && s[nl - 1] == '\r' {
        s.subrange(0, nl - 1)
    } else {
        s.subrange(0, nl)
    }
}

/// A description cropped for a listing: its first line, and where that is
/// longer than `DESC_MAX_LEN` characters, its first `DESC_MAX_LEN - 3`
/// characters followed by `...`.
pub open spec fn cropped(s: Seq<char>) -> Seq<char> {
    let line = first_line(s);
    if line.len() <= DESC_MAX_LEN {
        line
    } else {
        line.subrange(0, DESC_MAX_LEN - 3) + seq!['.', '.', '.']
    }
}

/// Crops a description to fit a listing row (see [`cropped`]).
pub fn crop_description(description: &str) -> (r: String)
    ensures
        r@ == cropped(description@),
{
    let s = chars_of(description);
    let n = s.len();
    let mut i: usize = 0;
    while i < n && s[i] != '\n'
        invariant
            n == s@.len(),
            i <= n,
            newline_from(s@, 0) == newline_from(s@, i as int),
        decreases n - i,
    {
        i = i + 1;
    }
    let end = if i < n && i > 0 && s[i - 1] == '\r' {
        i - 1
    } else {
        i
    };
    let line = slice_chars(&s, 0, end);
    assert(i == n ==> line@ =~= s@);
    if line.len() <= DESC_MAX_LEN {
        string_of(&line)
    } else {
        let mut out = slice_chars(&line, 0, DESC_MAX_LEN - 3);
        let dots = vec!['.', '.', '.'];
        push_all(&mut out, &dots);
        string_of(&out)
    }
}

} // verus!
