use vstd::prelude::*;

use crate::error::CliError;
use crate::names::{ascii_alnum, is_ascii_alnum};
use crate::text::{chars_of, ends_with, has_suffix, slice_chars, string_of};

verus! {

/// Length of a notebook or trigger identifier.
pub const ID_LEN: usize = 22;

/// The identifier alphabet: ASCII letters, digits, `_` and `-`.
pub open spec fn is_id_char(c: char) -> bool {
    is_ascii_alnum(c) || c == '_' || c == '-'
}

/// Whether the `ID_LEN` characters of `s` before `end` are identifier characters.
pub open spec fn id_ends_at(s: Seq<char>, end: int) -> bool {
    &&& ID_LEN <= end <= s.len()
    &&& forall|k: int| end - ID_LEN <= k < end ==> is_id_char(#[trigger] s[k])
}

/// The identifier at the end of `s`, optionally followed by `suffix`; the
/// match that starts first wins, as a leftmost search for
/// `([a-zA-Z0-9_-]{22})(?:suffix)?$` finds it.
pub open spec fn trailing_id(s: Seq<char>, suffix: Seq<char>) -> Option<Seq<char>> {
    let e = s.len() - suffix.len();
    if ends_with(s, suffix) && id_ends_at(s, e) {
        Some(s.subrange(e - ID_LEN, e))
    } else if id_ends_at(s, s.len() as int) {
        Some(s.subrange(s.len() - ID_LEN, s.len() as int))
    } else {
        None
    }
}

/// The suffix that a trigger's webhook URL adds after its identifier.
pub open spec fn webhook_suffix() -> Seq<char> {
    seq!['/', 'w', 'e', 'b', 'h', 'o', 'o', 'k']
}

pub fn id_char(c: char) -> (r: bool)
    ensures
        r == is_id_char(c),
{
    ascii_alnum(c) || c == '_' || c == '-'
}

fn id_ends_at_exec(s: &[char], end: usize) -> (r: bool)
    requires
        end <= s@.len(),
    ensures
        r == id_ends_at(s@, end as int),
{
    if end < ID_LEN {
        return false;
    }
    let mut k: usize = end - ID_LEN;
    while k < end
        invariant
            ID_LEN <= end <= s@.len(),
            end - ID_LEN <= k <= end,
            forall|j: int| end - ID_LEN <= j < k ==> is_id_char(#[trigger] s@[j]),
        decreases end - k,
    {
        if !id_char(s[k]) {
            return false;
        }
        k = k + 1;
    }
    true
}

/// The identifier at the end of `s`, optionally followed by `suffix`.
pub fn trailing_identifier(s: &[char], suffix: &[char]) -> (r: Result<String, CliError>)
    ensures
        r is Ok <==> trailing_id(s@, suffix@) is Some,
        r is Ok ==> r->Ok_0@ == trailing_id(s@, suffix@)->Some_0,
        r is Err ==> r->Err_0 == CliError::InvalidIdentifier,
{
    if has_suffix(s, suffix) {
        let e = s.len() - suffix.len();
        if id_ends_at_exec(s, e) {
            let id = slice_chars(s, e - ID_LEN, e);
            return Ok(string_of(&id));
        }
    }
    let n = s.len();
    if id_ends_at_exec(s, n) {
        let id = slice_chars(s, n - ID_LEN, n);
        Ok(string_of(&id))
    } else {
        Err(CliError::InvalidIdentifier)
    }
}

/// The notebook identifier that ends `s`, a bare identifier or a URL.
pub fn parse_notebook_id(s: &str) -> (r: Result<String, CliError>)
    ensures
        r is Ok <==> trailing_id(s@, Seq::empty()) is Some,
        r is Ok ==> r->Ok_0@ == trailing_id(s@, Seq::empty())->Some_0,
        r is Err ==> r->Err_0 == CliError::InvalidIdentifier,
{
    let chars = chars_of(s);
    let none: Vec<char> = Vec::new();
    trailing_identifier(&chars, &none)
}

/// The trigger identifier that ends `s`, a bare identifier or a URL, with or
/// without the `/webhook` suffix.
pub fn parse_trigger_id(s: &str) -> (r: Result<String, CliError>)
    ensures
        r is Ok <==> trailing_id(s@, webhook_suffix()) is Some,
        r is Ok ==> r->Ok_0@ == trailing_id(s@, webhook_suffix())->Some_0,
        r is Err ==> r->Err_0 == CliError::InvalidIdentifier,
{
    let chars = chars_of(s);
    let suffix = vec!['/', 'w', 'e', 'b', 'h', 'o', 'o', 'k'];
    assert(suffix@ =~= webhook_suffix());
    trailing_identifier(&chars, &suffix)
}

/// An identifier at the end of a string, alone or followed by `/webhook`,
/// is what the trigger resolver extracts.
pub proof fn lemma_trigger_id_extracted(prefix: Seq<char>, id: Seq<char>, with_suffix: bool)
    requires
        id.len() == ID_LEN,
        forall|k: int| 0 <= k < id.len() ==> is_id_char(#[trigger] id[k]),
    ensures
        trailing_id(prefix + id + (if with_suffix { webhook_suffix() } else { Seq::empty() }), webhook_suffix())
            == Some(id),
{
    let suf = if with_suffix { webhook_suffix() } else { Seq::<char>::empty() };
    let s = prefix + id + suf;
    let p = prefix.len() as int;
    assert(s.subrange(p, p + ID_LEN) =~= id);
    if with_suffix {
        assert(s.subrange(s.len() - 8, s.len() as int) =~= webhook_suffix());
        assert forall|k: int| p <= k < p + ID_LEN implies is_id_char(#[trigger] s[k]) by {
            assert(s[k] == id[k - p]);
        }
    } else {
        assert(s =~= prefix + id);
        assert forall|k: int| p <= k < p + ID_LEN implies is_id_char(#[trigger] s[k]) by {
            assert(s[k] == id[k - p]);
        }
        assert(!ends_with(s, webhook_suffix())) by {
            if ends_with(s, webhook_suffix()) {
                assert(s.subrange(s.len() - 8, s.len() as int)[0] == '/');
                assert(s[s.len() - 8] == '/');
                assert(is_id_char(s[s.len() - 8]));
            }
        }
    }
}

/// An identifier at the end of a string is what the notebook resolver extracts.
pub proof fn lemma_notebook_id_extracted(prefix: Seq<char>, id: Seq<char>)
    requires
        id.len() == ID_LEN,
        forall|k: int| 0 <= k < id.len() ==> is_id_char(#[trigger] id[k]),
    ensures
        trailing_id(prefix + id, Seq::empty()) == Some(id),
{
    let s = prefix + id;
    let p = prefix.len() as int;
    assert(s.subrange(p, p + ID_LEN) =~= id);
    assert(s.subrange(s.len() as int, s.len() as int) =~= Seq::<char>::empty());
    assert forall|k: int| p <= k < p + ID_LEN implies is_id_char(#[trigger] s[k]) by {
        assert(s[k] == id[k - p]);
    }
}

} // verus!
