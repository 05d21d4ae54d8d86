use vstd::prelude::*;

use crate::error::CliError;
use crate::text::string_of;

verus! {

/// Longest name accepted.
pub const NAME_MAX_LEN: usize = 63;

/// `a`-`z` or `0`-`9`.
pub open spec fn is_lower_alnum(c: char) -> bool {
    ('a' <= c && c <= 'z') || ('0' <= c && c <= '9')
}

/// Any ASCII letter or digit.
pub open spec fn is_ascii_alnum(c: char) -> bool {
    ('a' <= c && c <= 'z') || ('A' <= c && c <= 'Z') || ('0' <= c && c <= '9')
}

/// The pattern `^[a-z0-9]([a-z0-9-]{0,61}[a-z0-9])?$`: one to 63 lowercase
/// letters, digits and dashes, starting and ending with a letter or a digit.
pub open spec fn is_valid_name(s: Seq<char>) -> bool {
    &&& 1 <= s.len() <= NAME_MAX_LEN
    &&& forall|k: int| 0 <= k < s.len() ==> is_lower_alnum(#[trigger] s[k]) || s[k] == '-'
    &&& is_lower_alnum(s[0])
    &&& is_lower_alnum(s.last())
}

pub fn lower_alnum(c: char) -> (r: bool)
    ensures
        r == is_lower_alnum(c),
{
    ('a' <= c && c <= 'z') || ('0' <= c && c <= '9')
}

pub fn ascii_alnum(c: char) -> (r: bool)
    ensures
        r == is_ascii_alnum(c),
{
    ('a' <= c && c <= 'z') || ('A' <= c && c <= 'Z') || ('0' <= c && c <= '9')
}

/// Whether `s` is a valid template name.
pub fn name_is_valid(s: &[char]) -> (r: bool)
    ensures
        r == is_valid_name(s@),
{
    let n = s.len();
    if n < 1 || n > NAME_MAX_LEN {
        return false;
    }
    if !lower_alnum(s[0]) || !lower_alnum(s[n - 1]) {
        return false;
    }
    let mut i: usize = 0;
    while i < n
        invariant
            n == s@.len(),
            i <= n,
            forall|k: int| 0 <= k < i ==> is_lower_alnum(#[trigger] s@[k]) || s@[k] == '-',
        decreases n - i,
    {
        if !lower_alnum(s[i]) && s[i] != '-' {
            return false;
        }
        i = i + 1;
    }
    true
}

/// The ASCII lowercase of `c`; other characters are kept.
pub open spec fn to_lower(c: char) -> char {
    if 'A' <= c && c <= 'Z' {
        ((c as u8) + 32u8) as char
    } else {
        c
    }
}

pub fn lower_char(c: char) -> (r: char)
    ensures
        r == to_lower(c),
{
    if 'A' <= c && c <= 'Z' {
        ((c as u8) + 32u8) as char
    } else {
        c
    }
}

} // verus!

verus! {

/// The slug of the rest of a title: ASCII letters and digits are kept in
/// lowercase, every run of other characters becomes one dash, and no dash
/// stands first or last. `started` tells whether a character was written
/// already, `pending` whether a run of other characters precedes.
pub open spec fn slug_from(s: Seq<char>, started: bool, pending: bool) -> Seq<char>
    decreases s.len(),
{
    if s.len() == 0 {
        Seq::empty()
    } else if is_ascii_alnum(s[0]) {
        (if started && pending { seq!['-'] } else { Seq::empty() }) + seq![to_lower(s[0])]
            + slug_from(s.drop_first(), true, false)
    } else {
        slug_from(s.drop_first(), started, true)
    }
}

/// The slug of a title.
pub open spec fn slug(s: Seq<char>) -> Seq<char> {
    slug_from(s, false, false)
}

/// The slug of `title` (see [`slug`]).
pub fn slugify(title: &[char]) -> (r: Vec<char>)
    ensures
        r@ == slug(title@),
{
    let n = title.len();
    let mut out: Vec<char> = Vec::new();
    let mut pending = false;
    let mut i: usize = 0;
    assert(title@.subrange(0, n as int) =~= title@);
    assert(out@ + slug(title@) =~= slug(title@));
    while i < n
        invariant
            n == title@.len(),
            i <= n,
            slug(title@) == out@ + slug_from(title@.subrange(i as int, n as int), out@.len() > 0, pending),
        decreases n - i,
    {
        let ghost rest = title@.subrange(i as int, n as int);
        assert(rest.drop_first() =~= title@.subrange(i + 1, n as int));
        assert(rest[0] == title@[i as int]);
        let c = title[i];
        if ascii_alnum(c) {
            let ghost before = out@;
            let ghost was_pending = pending;
            if out.len() > 0 && pending {
                out.push('-');
            }
            out.push(lower_char(c));
            pending = false;
            assert(out@ =~= before + (if before.len() > 0 && was_pending { seq!['-'] } else { Seq::<char>::empty() }) + seq![to_lower(c)]);
        } else {
            pending = true;
        }
        i = i + 1;
    }
    assert(title@.subrange(n as int, n as int) =~= Seq::<char>::empty());
    assert(out@ =~= out@ + Seq::<char>::empty());
    out
}

} // verus!

verus! {

/// The name suggested for a template made from a notebook titled `title`:
/// its slug, where that is a valid name.
pub fn default_template_name(title: &str) -> (r: Option<String>)
    ensures
        r is Some <==> is_valid_name(slug(title@)),
        r is Some ==> r->Some_0@ == slug(title@),
{
    let chars = crate::text::chars_of(title);
    let s = slugify(&chars);
    if name_is_valid(&s) {
        Some(string_of(&s))
    } else {
        None
    }
}

/// The name to give a template: `explicit` where one was given, else the
/// slug of the notebook's title. Fails with `InvalidName` when the chosen
/// text is not a valid name.
pub fn choose_template_name(explicit: Option<&str>, title: &str) -> (r: Result<String, CliError>)
    ensures
        explicit is Some ==> (is_valid_name(explicit->Some_0@) <==> r is Ok),
        explicit is Some && r is Ok ==> r->Ok_0@ == explicit->Some_0@,
        explicit is None ==> (is_valid_name(slug(title@)) <==> r is Ok),
        explicit is None && r is Ok ==> r->Ok_0@ == slug(title@),
        r is Err ==> r->Err_0 == CliError::InvalidName,
{
    match explicit {
        Some(name) => {
            let chars = crate::text::chars_of(name);
            if name_is_valid(&chars) {
                Ok(string_of(&chars))
            } else {
                Err(CliError::InvalidName)
            }
        },
        None => match default_template_name(title) {
            Some(name) => Ok(name),
            None => Err(CliError::InvalidName),
        },
    }
}

} // verus!
