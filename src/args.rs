use vstd::prelude::*;

use crate::error::CliError;
use crate::text::{chars_of, is_whitespace, slice_chars, string_of, trim, trim_chars, trim_end_index, trim_start_index};

verus! {

#[verifier::external_type_specification]
#[verifier::external_body]
pub struct ExValue(serde_json::Value);

/// The object that JSON text `s` denotes, as a map from key to value, where
/// `s` is a JSON object.
pub uninterp spec fn json_object_of(s: Seq<char>) -> Option<Map<Seq<char>, serde_json::Value>>;

/// The value that JSON text `s` denotes, where `s` is JSON.
pub uninterp spec fn json_value_of(s: Seq<char>) -> Option<serde_json::Value>;

/// The JSON string value holding the text `s`.
pub uninterp spec fn json_string_of(s: Seq<char>) -> serde_json::Value;

/// The map that a list of pairs gives when each pair is inserted in turn:
/// where a key repeats, its last value is kept.
pub open spec fn pairs_map(s: Seq<(String, serde_json::Value)>) -> Map<Seq<char>, serde_json::Value>
    decreases s.len(),
{
    if s.len() == 0 {
        Map::empty()
    } else {
        pairs_map(s.drop_last()).insert(s.last().0@, s.last().1)
    }
}

/// No key occurs twice.
pub open spec fn keys_unique(s: Seq<(String, serde_json::Value)>) -> bool {
    forall|i: int, j: int| 0 <= i < j < s.len() ==> (#[trigger] s[i]).0@ != (#[trigger] s[j]).0@
}

/// Relies on `serde_json::from_str` into a `serde_json::Map`: the text is
/// accepted exactly when it is a JSON object, and a map holds each key once.
#[verifier::external_body]
fn parse_json_object(s: &str) -> (r: Option<Vec<(String, serde_json::Value)>>)
    ensures
        r is Some <==> json_object_of(s@) is Some,
        r is Some ==> keys_unique(r->Some_0@),
        r is Some ==> pairs_map(r->Some_0@) == json_object_of(s@)->Some_0,
{
    match serde_json::from_str::<serde_json::Map<String, serde_json::Value>>(s) {
        Ok(m) => Some(m.into_iter().collect()),
        Err(_) => None,
    }
}

/// Relies on `serde_json::from_str` into a `serde_json::Value`.
#[verifier::external_body]
fn parse_json_value(s: &str) -> (r: Option<serde_json::Value>)
    ensures
        r == json_value_of(s@),
{
    serde_json::from_str::<serde_json::Value>(s).ok()
}

/// Relies on the `serde_json::Value::String` constructor.
#[verifier::external_body]
fn json_string(s: String) -> (r: serde_json::Value)
    ensures
        r == json_string_of(s@),
{
    serde_json::Value::String(s)
}

proof fn lemma_pairs_map_keys(s: Seq<(String, serde_json::Value)>, k: Seq<char>)
    ensures
        pairs_map(s).contains_key(k) <==> exists|i: int| 0 <= i < s.len() && (#[trigger] s[i]).0@ == k,
    decreases s.len(),
{
    if s.len() > 0 {
        lemma_pairs_map_keys(s.drop_last(), k);
        if pairs_map(s).contains_key(k) {
            if s.last().0@ != k {
                let i = choose|i: int| 0 <= i < s.drop_last().len() && (#[trigger] s.drop_last()[i]).0@ == k;
                assert(s[i] == s.drop_last()[i]);
            } else {
                assert(s[s.len() - 1].0@ == k);
            }
        }
        if exists|i: int| 0 <= i < s.len() && (#[trigger] s[i]).0@ == k {
            let i = choose|i: int| 0 <= i < s.len() && (#[trigger] s[i]).0@ == k;
            if i < s.len() - 1 {
                assert(s.drop_last()[i] == s[i]);
            }
        }
    }
}

proof fn lemma_pairs_map_value(s: Seq<(String, serde_json::Value)>, i: int)
    requires
        keys_unique(s),
        0 <= i < s.len(),
    ensures
        pairs_map(s).contains_key(s[i].0@),
        pairs_map(s)[s[i].0@] == s[i].1,
    decreases s.len(),
{
    if i < s.len() - 1 {
        assert(s.drop_last()[i] == s[i]);
        lemma_pairs_map_value(s.drop_last(), i);
        assert(s[i].0@ != s[s.len() - 1].0@);
    }
}

proof fn lemma_pairs_map_update(s: Seq<(String, serde_json::Value)>, i: int, p: (String, serde_json::Value))
    requires
        keys_unique(s),
        0 <= i < s.len(),
        s[i].0@ == p.0@,
    ensures
        keys_unique(s.update(i, p)),
        pairs_map(s.update(i, p)) == pairs_map(s).insert(p.0@, p.1),
{
    let t = s.update(i, p);
    assert forall|a: int, b: int| 0 <= a < b < t.len() implies (#[trigger] t[a]).0@ != (#[trigger] t[b]).0@ by {
        assert(s[a].0@ != s[b].0@);
    }
    assert forall|k: Seq<char>| #[trigger] pairs_map(t).contains_key(k) <==> pairs_map(s).insert(p.0@, p.1).contains_key(k) by {
        lemma_pairs_map_keys(s, k);
        lemma_pairs_map_keys(t, k);
        if exists|j: int| 0 <= j < s.len() && (#[trigger] s[j]).0@ == k {
            let j = choose|j: int| 0 <= j < s.len() && (#[trigger] s[j]).0@ == k;
            assert(t[j].0@ == k);
        }
        if exists|j: int| 0 <= j < t.len() && (#[trigger] t[j]).0@ == k {
            let j = choose|j: int| 0 <= j < t.len() && (#[trigger] t[j]).0@ == k;
            assert(s[j].0@ == k);
        }
    }
    assert forall|k: Seq<char>| #[trigger] pairs_map(t).contains_key(k) implies pairs_map(t)[k] == pairs_map(s).insert(p.0@, p.1)[k] by {
        lemma_pairs_map_keys(t, k);
        let j = choose|j: int| 0 <= j < t.len() && (#[trigger] t[j]).0@ == k;
        lemma_pairs_map_value(t, j);
        if j != i {
            lemma_pairs_map_value(s, j);
        }
    }
    assert(pairs_map(t) =~= pairs_map(s).insert(p.0@, p.1));
}

/// Values for a template's parameters, by name.
pub struct TemplateArguments {
    entries: Vec<(String, serde_json::Value)>,
}

impl View for TemplateArguments {
    type V = Map<Seq<char>, serde_json::Value>;

    closed spec fn view(&self) -> Map<Seq<char>, serde_json::Value> {
        pairs_map(self.entries@)
    }
}

impl TemplateArguments {
    /// Each name is held once.
    pub closed spec fn wf(&self) -> bool {
        keys_unique(self.entries@)
    }

    /// No arguments.
    pub fn new() -> (r: TemplateArguments)
        ensures
            r.wf(),
            r@ == Map::<Seq<char>, serde_json::Value>::empty(),
    {
        TemplateArguments { entries: Vec::new() }
    }

    /// Number of arguments.
    pub fn len(&self) -> (r: usize)
        requires
            self.wf(),
        ensures
            r == self@.len(),
    {
        proof {
            self.lemma_len();
        }
        self.entries.len()
    }

    proof fn lemma_len(&self)
        requires
            self.wf(),
        ensures
            self@.dom().finite(),
            self@.len() == self.entries@.len(),
        decreases self.entries@.len(),
    {
        lemma_pairs_map_len(self.entries@);
    }

    /// Sets `name` to `value`, replacing an earlier value of the same name.
    pub fn insert(&mut self, name: String, value: serde_json::Value)
        requires
            old(self).wf(),
        ensures
            final(self).wf(),
            final(self)@ == old(self)@.insert(name@, value),
    {
        let n = self.entries.len();
        let mut i: usize = 0;
        while i < n
            invariant
                n == self.entries@.len(),
                keys_unique(self.entries@),
                self.entries@ == old(self).entries@,
                i <= n,
                forall|j: int| 0 <= j < i ==> (#[trigger] self.entries@[j]).0@ != name@,
            decreases n - i,
        {
            if self.entries[i].0 == name {
                let ghost before = self.entries@;
                proof {
                    lemma_pairs_map_update(before, i as int, (name, value));
                }
                self.entries.set(i, (name, value));
                assert(self.entries@ == before.update(i as int, (name, value)));
                return;
            }
            i = i + 1;
        }
        let ghost before = self.entries@;
        self.entries.push((name, value));
        assert(self.entries@.drop_last() =~= before);
        assert(self.entries@.last() == (name, value));
        assert forall|a: int, b: int| 0 <= a < b < self.entries@.len() implies (#[trigger] self.entries@[a]).0@
            != (#[trigger] self.entries@[b]).0@ by {
            if b == n {
                assert(self.entries@[a] == before[a]);
            } else {
                assert(self.entries@[a] == before[a]);
                assert(self.entries@[b] == before[b]);
            }
        }
    }

    /// The value given for `name`, if any.
    pub fn get(&self, name: &str) -> (r: Option<&serde_json::Value>)
        requires
            self.wf(),
        ensures
            r is Some <==> self@.contains_key(name@),
            r is Some ==> *r->Some_0 == self@[name@],
    {
        let key = name.to_owned();
        let n = self.entries.len();
        let mut i: usize = 0;
        while i < n
            invariant
                n == self.entries@.len(),
                keys_unique(self.entries@),
                key@ == name@,
                i <= n,
                forall|j: int| 0 <= j < i ==> (#[trigger] self.entries@[j]).0@ != name@,
            decreases n - i,
        {
            if self.entries[i].0 == key {
                proof {
                    lemma_pairs_map_value(self.entries@, i as int);
                }
                return Some(&self.entries[i].1);
            }
            i = i + 1;
        }
        proof {
            lemma_pairs_map_keys(self.entries@, name@);
        }
        None
    }

    /// The arguments as pairs of name and value, each name once.
    pub fn into_pairs(self) -> (r: Vec<(String, serde_json::Value)>)
        requires
            self.wf(),
        ensures
            keys_unique(r@),
            pairs_map(r@) == self@,
    {
        self.entries
    }
}

proof fn lemma_pairs_map_len(s: Seq<(String, serde_json::Value)>)
    requires
        keys_unique(s),
    ensures
        pairs_map(s).dom().finite(),
        pairs_map(s).len() == s.len(),
    decreases s.len(),
{
    if s.len() > 0 {
        let t = s.drop_last();
        assert forall|a: int, b: int| 0 <= a < b < t.len() implies (#[trigger] t[a]).0@ != (#[trigger] t[b]).0@ by {
            assert(t[a] == s[a] && t[b] == s[b]);
        }
        lemma_pairs_map_len(t);
        lemma_pairs_map_keys(t, s.last().0@);
        if pairs_map(t).contains_key(s.last().0@) {
            let i = choose|i: int| 0 <= i < t.len() && (#[trigger] t[i]).0@ == s.last().0@;
            assert(s[i] == t[i]);
        }
    }
}

} // verus!

verus! {

/// `;` and `,` separate the pairs of a delimited argument list.
pub open spec fn is_pair_delim(c: char) -> bool {
    c == ';' || c == ','
}

/// `:` and `=` separate a name from its value.
pub open spec fn is_name_sep(c: char) -> bool {
    c == ':' || c == '='
}

/// The pieces of `s` between delimiters, empty ones included (`s.split([';', ','])`).
pub open spec fn tokens(s: Seq<char>) -> Seq<Seq<char>>
    decreases s.len(),
{
    if s.len() == 0 {
        seq![Seq::empty()]
    } else if is_pair_delim(s.last()) {
        tokens(s.drop_last()).push(Seq::empty())
    } else {
        let t = tokens(s.drop_last());
        t.update(t.len() - 1, t.last().push(s.last()))
    }
}

proof fn lemma_tokens_nonempty(s: Seq<char>)
    ensures
        tokens(s).len() >= 1,
    decreases s.len(),
{
    if s.len() > 0 {
        lemma_tokens_nonempty(s.drop_last());
    }
}

/// Index of the first name separator of `t` at or after `i`, or -1.
pub open spec fn first_sep_from(t: Seq<char>, i: int) -> int
    decreases t.len() - i,
{
    if i < 0 || i >= t.len() {
        -1
    } else if is_name_sep(t[i]) {
        i
    } else {
        first_sep_from(t, i + 1)
    }
}

/// The name and value of one token: the token is trimmed and split at its
/// first separator; the name is trimmed as well.
pub open spec fn split_pair(token: Seq<char>) -> Option<(Seq<char>, Seq<char>)> {
    let t = trim(token);
    let i = first_sep_from(t, 0);
    if i < 0 {
        None
    } else {
        Some((trim(t.subrange(0, i)), t.subrange(i + 1, t.len() as int)))
    }
}

/// The map of string values that a list of tokens gives, or `None` where a
/// token has no separator.
pub open spec fn pairs_of_tokens(toks: Seq<Seq<char>>) -> Option<Map<Seq<char>, serde_json::Value>>
    decreases toks.len(),
{
    if toks.len() == 0 {
        Some(Map::empty())
    } else {
        match (pairs_of_tokens(toks.drop_last()), split_pair(toks.last())) {
            (Some(m), Some(p)) => Some(m.insert(p.0, json_string_of(p.1))),
            _ => None,
        }
    }
}

/// The arguments that a delimited list such as `a=1,b:2` gives.
pub open spec fn delimited_arguments(s: Seq<char>) -> Option<Map<Seq<char>, serde_json::Value>> {
    pairs_of_tokens(tokens(s))
}

/// What an argument blob gives: the members of a JSON object, else the
/// string values of a delimited list, else nothing.
pub open spec fn blob_arguments(s: Seq<char>) -> Option<Map<Seq<char>, serde_json::Value>> {
    match json_object_of(s) {
        Some(m) => Some(m),
        None => delimited_arguments(s),
    }
}

proof fn lemma_pairs_of_tokens_none(toks: Seq<Seq<char>>, j: int)
    requires
        0 <= j <= toks.len(),
        pairs_of_tokens(toks.subrange(0, j)) is None,
    ensures
        pairs_of_tokens(toks) is None,
    decreases toks.len() - j,
{
    if j < toks.len() {
        assert(toks.subrange(0, j + 1).drop_last() =~= toks.subrange(0, j));
        lemma_pairs_of_tokens_none(toks, j + 1);
    } else {
        assert(toks.subrange(0, j) =~= toks);
    }
}

/// Splits `s` at every `;` and `,`.
fn split_tokens(s: &[char]) -> (r: Vec<Vec<char>>)
    ensures
        r@.map_values(|t: Vec<char>| t@) == tokens(s@),
{
    let n = s.len();
    let mut done: Vec<Vec<char>> = Vec::new();
    let mut cur: Vec<char> = Vec::new();
    let mut i: usize = 0;
    assert(s@.subrange(0, 0) =~= Seq::<char>::empty());
    assert(done@.map_values(|t: Vec<char>| t@).push(cur@) =~= tokens(Seq::<char>::empty()));
    while i < n
        invariant
            n == s@.len(),
            i <= n,
            done@.map_values(|t: Vec<char>| t@).push(cur@) == tokens(s@.subrange(0, i as int)),
        decreases n - i,
    {
        let c = s[i];
        let ghost pre = s@.subrange(0, i as int);
        assert(s@.subrange(0, i + 1).drop_last() =~= pre);
        assert(s@.subrange(0, i + 1).last() == c);
        if c == ';' || c == ',' {
            done.push(cur);
            cur = Vec::new();
            assert(done@.map_values(|t: Vec<char>| t@) =~= tokens(pre));
        } else {
            cur.push(c);
            assert(done@.map_values(|t: Vec<char>| t@).push(cur@) =~= tokens(pre).update(
                tokens(pre).len() - 1,
                tokens(pre).last().push(c),
            ));
        }
        i = i + 1;
    }
    assert(s@.subrange(0, n as int) =~= s@);
    done.push(cur);
    done
}

/// The first name separator of `t`, if any.
fn find_sep(t: &[char]) -> (r: Option<usize>)
    ensures
        r is None ==> first_sep_from(t@, 0) < 0,
        r is Some ==> r->Some_0 == first_sep_from(t@, 0) && r->Some_0 < t@.len(),
{
    let n = t.len();
    let mut i: usize = 0;
    while i < n
        invariant
            n == t@.len(),
            i <= n,
            first_sep_from(t@, 0) == first_sep_from(t@, i as int),
        decreases n - i,
    {
        if t[i] == ':' || t[i] == '=' {
            return Some(i);
        }
        i = i + 1;
    }
    None
}

/// The name and value of one token of a delimited list.
fn parse_pair(token: &[char]) -> (r: Option<(String, String)>)
    ensures
        r is None <==> split_pair(token@) is None,
        r is Some ==> r->Some_0.0@ == split_pair(token@)->Some_0.0 && r->Some_0.1@ == split_pair(
            token@,
        )->Some_0.1,
{
    let t = trim_chars(token);
    match find_sep(&t) {
        None => None,
        Some(i) => {
            let n = t.len();
            assert(i < n);
            let left = slice_chars(&t, 0, i);
            let name = trim_chars(&left);
            let value = slice_chars(&t, i + 1, n);
            Some((string_of(&name), string_of(&value)))
        },
    }
}

/// The arguments of a delimited list such as `a=1;b:2`, each value a string.
pub fn parse_delimited(s: &str) -> (r: Option<TemplateArguments>)
    ensures
        r is Some <==> delimited_arguments(s@) is Some,
        r is Some ==> r->Some_0.wf() && r->Some_0@ == delimited_arguments(s@)->Some_0,
{
    let chars = chars_of(s);
    let toks = split_tokens(&chars);
    let ghost tv = toks@.map_values(|t: Vec<char>| t@);
    let mut args = TemplateArguments::new();
    let mut j: usize = 0;
    assert(tv.subrange(0, 0) =~= Seq::<Seq<char>>::empty());
    while j < toks.len()
        invariant
            tv == toks@.map_values(|t: Vec<char>| t@),
            tv == tokens(s@),
            j <= toks@.len(),
            args.wf(),
            pairs_of_tokens(tv.subrange(0, j as int)) == Some(args@),
        decreases toks@.len() - j,
    {
        assert(tv.subrange(0, j + 1).drop_last() =~= tv.subrange(0, j as int));
        assert(tv.subrange(0, j + 1).last() == toks@[j as int]@);
        match parse_pair(&toks[j]) {
            None => {
                proof {
                    lemma_pairs_of_tokens_none(tv, j + 1);
                }
                return None;
            },
            Some((name, value)) => {
                let v = json_string(value);
                args.insert(name, v);
            },
        }
        j = j + 1;
    }
    assert(tv.subrange(0, j as int) =~= tv);
    Some(args)
}

impl TemplateArguments {
    /// Parses an argument blob: a JSON object gives its members unchanged;
    /// otherwise a list of `name=value` or `name:value` pairs separated by
    /// `,` or `;` gives string values. Anything else is
    /// `InvalidArgumentSyntax`.
    pub fn from_str(s: &str) -> (r: Result<TemplateArguments, CliError>)
        ensures
            r is Ok <==> blob_arguments(s@) is Some,
            r is Ok ==> r->Ok_0.wf() && r->Ok_0@ == blob_arguments(s@)->Some_0,
            r is Err ==> r->Err_0 == CliError::InvalidArgumentSyntax,
    {
        match parse_json_object(s) {
            Some(entries) => Ok(TemplateArguments { entries }),
            None => match parse_delimited(s) {
                Some(args) => Ok(args),
                None => Err(CliError::InvalidArgumentSyntax),
            },
        }
    }
}

} // verus!

verus! {

/// Index of the first `c` in `s` at or after `i`, or -1.
pub open spec fn first_char_from(s: Seq<char>, i: int, c: char) -> int
    decreases s.len() - i,
{
    if i < 0 || i >= s.len() {
        -1
    } else if s[i] == c {
        i
    } else {
        first_char_from(s, i + 1, c)
    }
}

/// One `name=value` argument given on the command line.
pub struct TemplateArg {
    pub name: String,
    pub value: serde_json::Value,
}

/// The value of a `name=value` argument: the JSON value the text denotes,
/// else the text as a string.
pub open spec fn arg_value(text: Seq<char>) -> serde_json::Value {
    match json_value_of(text) {
        Some(v) => v,
        None => json_string_of(text),
    }
}

impl TemplateArg {
    /// Splits `s` at its first `=`: the left side is the name; the right
    /// side is read as JSON where it is JSON, else kept as a string. Without
    /// `=` it fails with `InvalidArgumentSyntax`.
    pub fn from_str(s: &str) -> (r: Result<TemplateArg, CliError>)
        ensures
            r is Ok <==> first_char_from(s@, 0, '=') >= 0,
            r is Ok ==> r->Ok_0.name@ == s@.subrange(0, first_char_from(s@, 0, '=')),
            r is Ok ==> r->Ok_0.value == arg_value(
                s@.subrange(first_char_from(s@, 0, '=') + 1, s@.len() as int),
            ),
            r is Err ==> r->Err_0 == CliError::InvalidArgumentSyntax,
    {
        let chars = chars_of(s);
        let n = chars.len();
        let mut i: usize = 0;
        while i < n && chars[i] != '='
            invariant
                n == chars@.len(),
                chars@ == s@,
                i <= n,
                first_char_from(s@, 0, '=') == first_char_from(s@, i as int, '='),
            decreases n - i,
        {
            i = i + 1;
        }
        if i == n {
            return Err(CliError::InvalidArgumentSyntax);
        }
        let name = string_of(&slice_chars(&chars, 0, i));
        let text = string_of(&slice_chars(&chars, i + 1, n));
        let value = match parse_json_value(text.as_str()) {
            Some(v) => v,
            None => json_string(text),
        };
        Ok(TemplateArg { name, value })
    }
}

/// The map that a list of arguments gives; where a name repeats, the last
/// value is kept.
pub open spec fn arg_list_map(s: Seq<TemplateArg>) -> Map<Seq<char>, serde_json::Value>
    decreases s.len(),
{
    if s.len() == 0 {
        Map::empty()
    } else {
        arg_list_map(s.drop_last()).insert(s.last().name@, s.last().value)
    }
}

/// Collects command-line arguments into one map; a later argument of the
/// same name replaces an earlier one.
pub fn arguments_from_list(list: Vec<TemplateArg>) -> (r: TemplateArguments)
    ensures
        r.wf(),
        r@ == arg_list_map(list@),
{
    let ghost all = list@;
    let mut rest = list;
    let mut args = TemplateArguments::new();
    let mut j: usize = 0;
    let n = rest.len();
    assert(all.subrange(0, 0) =~= Seq::<TemplateArg>::empty());
    while rest.len() > 0
        invariant
            n == all.len(),
            j + rest@.len() == n,
            rest@ == all.subrange(j as int, n as int),
            args.wf(),
            args@ == arg_list_map(all.subrange(0, j as int)),
        decreases rest@.len(),
    {
        let a = rest.remove(0);
        assert(all.subrange(0, j + 1).drop_last() =~= all.subrange(0, j as int));
        assert(a == all[j as int]);
        args.insert(a.name, a.value);
        j = j + 1;
        assert(rest@ =~= all.subrange(j as int, n as int));
    }
    assert(all.subrange(0, n as int) =~= all);
    args
}

/// `user` with the runtime variables added; a runtime variable replaces a
/// user argument of the same name, so users cannot override it.
pub fn with_runtime_variables(user: TemplateArguments, runtime: TemplateArguments) -> (r: TemplateArguments)
    requires
        user.wf(),
        runtime.wf(),
    ensures
        r.wf(),
        r@ == user@.union_prefer_right(runtime@),
{
    let ghost rt = runtime.entries@;
    let mut rest = runtime.entries;
    let mut args = user;
    let n = rest.len();
    let mut j: usize = 0;
    assert(args@ =~= args@.union_prefer_right(pairs_map(rt.subrange(0, 0))));
    while rest.len() > 0
        invariant
            n == rt.len(),
            j + rest@.len() == n,
            rest@ == rt.subrange(j as int, n as int),
            args.wf(),
            args@ == user@.union_prefer_right(pairs_map(rt.subrange(0, j as int))),
        decreases rest@.len(),
    {
        let p = rest.remove(0);
        assert(rt.subrange(0, j + 1).drop_last() =~= rt.subrange(0, j as int));
        assert(p == rt[j as int]);
        args.insert(p.0, p.1);
        j = j + 1;
        assert(args@ =~= user@.union_prefer_right(pairs_map(rt.subrange(0, j as int))));
        assert(rest@ =~= rt.subrange(j as int, n as int));
    }
    assert(rt.subrange(0, n as int) =~= rt);
    args
}

} // verus!

verus! {

/// A blob that is a JSON object gives exactly the object's members, each
/// value unchanged.
pub proof fn lemma_json_object_blob(s: Seq<char>)
    requires
        json_object_of(s) is Some,
    ensures
        blob_arguments(s) == json_object_of(s),
{
}

} // verus!

verus! {

/// A character that may stand in a plain argument name or value: no
/// whitespace, no pair delimiter.
pub open spec fn is_plain_char(c: char) -> bool {
    !is_whitespace(c) && !is_pair_delim(c)
}

/// A plain name or value: not empty, plain characters only.
pub open spec fn is_plain(s: Seq<char>) -> bool {
    s.len() > 0 && forall|k: int| 0 <= k < s.len() ==> is_plain_char(#[trigger] s[k])
}

/// Pairs `name`, separator (`=` or `:`), `value`, joined by commas.
pub open spec fn joined_pairs(ps: Seq<(Seq<char>, char, Seq<char>)>) -> Seq<char>
    decreases ps.len(),
{
    if ps.len() <= 1 {
        if ps.len() == 0 {
            Seq::empty()
        } else {
            ps[0].0 + seq![ps[0].1] + ps[0].2
        }
    } else {
        joined_pairs(ps.drop_last()) + seq![','] + ps.last().0 + seq![ps.last().1] + ps.last().2
    }
}

/// The string-valued map of a list of pairs; the last value of a name wins.
pub open spec fn string_map(ps: Seq<(Seq<char>, char, Seq<char>)>) -> Map<Seq<char>, serde_json::Value>
    decreases ps.len(),
{
    if ps.len() == 0 {
        Map::empty()
    } else {
        string_map(ps.drop_last()).insert(ps.last().0, json_string_of(ps.last().2))
    }
}

/// A pair of a plain name without separators, a separator, and a plain value.
pub open spec fn is_plain_pair(p: (Seq<char>, char, Seq<char>)) -> bool {
    &&& is_plain(p.0)
    &&& is_plain(p.2)
    &&& is_name_sep(p.1)
    &&& forall|j: int| 0 <= j < p.0.len() ==> !is_name_sep(#[trigger] p.0[j])
}

proof fn lemma_tokens_extend(x: Seq<char>, y: Seq<char>)
    requires
        forall|k: int| 0 <= k < y.len() ==> !is_pair_delim(#[trigger] y[k]),
    ensures
        tokens(x + y).len() == tokens(x).len(),
        tokens(x + y) == tokens(x).update(tokens(x).len() - 1, tokens(x).last() + y),
    decreases y.len(),
{
    lemma_tokens_nonempty(x);
    if y.len() == 0 {
        assert(x + y =~= x);
        assert(tokens(x).last() + y =~= tokens(x).last());
        assert(tokens(x).update(tokens(x).len() - 1, tokens(x).last()) =~= tokens(x));
    } else {
        let y0 = y.drop_last();
        lemma_tokens_extend(x, y0);
        assert((x + y).drop_last() =~= x + y0);
        assert((x + y).last() == y.last());
        assert(tokens(x).last() + y0 + seq![y.last()] =~= tokens(x).last() + y);
        let t = tokens(x + y0);
        assert(!is_pair_delim(y[y.len() - 1]));
        assert(!is_pair_delim((x + y).last()));
        assert(t.len() == tokens(x).len());
        assert(t.last() == tokens(x).last() + y0);
        assert((tokens(x).last() + y0).push(y.last()) =~= tokens(x).last() + y);
        assert(tokens(x + y) == t.update(t.len() - 1, t.last().push((x + y).last())));
        assert(tokens(x + y) =~= tokens(x).update(tokens(x).len() - 1, tokens(x).last() + y));
    }
}

proof fn lemma_trim_plain(s: Seq<char>)
    requires
        s.len() > 0,
        !is_whitespace(s[0]),
        !is_whitespace(s.last()),
    ensures
        trim(s) == s,
{
    assert(trim_start_index(s) == 0);
    assert(s.subrange(0, s.len() as int) =~= s);
    assert(trim_end_index(s) == s.len());
}

proof fn lemma_first_sep(k: Seq<char>, c: char, rest: Seq<char>, i: int)
    requires
        0 <= i <= k.len(),
        is_name_sep(c),
        forall|j: int| 0 <= j < k.len() ==> !is_name_sep(#[trigger] k[j]),
    ensures
        first_sep_from(k + seq![c] + rest, i) == k.len(),
    decreases k.len() - i,
{
    let s = k + seq![c] + rest;
    if i < k.len() {
        assert(s[i] == k[i]);
        lemma_first_sep(k, c, rest, i + 1);
    } else {
        assert(s[i] == c);
    }
}

proof fn lemma_split_plain_pair(p: (Seq<char>, char, Seq<char>))
    requires
        is_plain_pair(p),
    ensures
        split_pair(p.0 + seq![p.1] + p.2) == Some((p.0, p.2)),
{
    let (k, c, v) = p;
    let s = k + seq![c] + v;
    assert(s[0] == k[0]);
    assert(s.last() == v.last());
    assert(is_plain_char(k[0]));
    assert(is_plain_char(v[v.len() - 1]));
    lemma_trim_plain(s);
    lemma_first_sep(k, c, v, 0);
    assert(s.subrange(0, k.len() as int) =~= k);
    assert(s.subrange(k.len() as int + 1, s.len() as int) =~= v);
    assert(is_plain_char(k.last()));
    lemma_trim_plain(k);
}

/// A list of plain `name=value` or `name:value` pairs joined by commas,
/// such as `env=prod,region=us-east` or `a=1,b:2`, parses in the delimited
/// form to each name mapped to its value as a string (the last value where
/// a name repeats); where the text is not also a JSON object, that is what
/// the argument parser returns.
pub proof fn lemma_delimited_pairs(ps: Seq<(Seq<char>, char, Seq<char>)>)
    requires
        ps.len() > 0,
        forall|i: int| 0 <= i < ps.len() ==> is_plain_pair(#[trigger] ps[i]),
    ensures
        delimited_arguments(joined_pairs(ps)) == Some(string_map(ps)),
        json_object_of(joined_pairs(ps)) is None ==> blob_arguments(joined_pairs(ps)) == Some(string_map(ps)),
    decreases ps.len(),
{
    let n = ps.len();
    let p = ps.last();
    let item = p.0 + seq![p.1] + p.2;
    assert(is_plain_pair(ps[n - 1]));
    assert forall|k: int| 0 <= k < item.len() implies !is_pair_delim(#[trigger] item[k]) by {
        if k < p.0.len() {
            assert(item[k] == p.0[k]);
            assert(is_plain_char(p.0[k]));
        } else if k > p.0.len() {
            assert(item[k] == p.2[k - p.0.len() - 1]);
            assert(is_plain_char(p.2[k - p.0.len() - 1]));
        }
    }
    lemma_split_plain_pair(p);
    if n == 1 {
        assert(joined_pairs(ps) == item);
        lemma_tokens_extend(Seq::empty(), item);
        assert(Seq::<char>::empty() + item =~= item);
        assert(tokens(item) =~= seq![item]);
        assert(seq![item].drop_last() =~= Seq::<Seq<char>>::empty());
        assert(ps.drop_last() =~= Seq::<(Seq<char>, char, Seq<char>)>::empty());
        assert(seq![item].last() == item);
        assert(pairs_of_tokens(Seq::<Seq<char>>::empty()) == Some(Map::<Seq<char>, serde_json::Value>::empty()));
        assert(string_map(Seq::<(Seq<char>, char, Seq<char>)>::empty()) == Map::<Seq<char>, serde_json::Value>::empty());
        assert(pairs_of_tokens(seq![item]) == Some(Map::<Seq<char>, serde_json::Value>::empty().insert(p.0, json_string_of(p.2))));
    } else {
        let front = ps.drop_last();
        assert forall|i: int| 0 <= i < front.len() implies is_plain_pair(#[trigger] front[i]) by {
            assert(front[i] == ps[i]);
        }
        lemma_delimited_pairs(front);
        let x = joined_pairs(front) + seq![','];
        assert(joined_pairs(ps) =~= x + item);
        lemma_tokens_extend(x, item);
        assert(x.drop_last() =~= joined_pairs(front));
        let tf = tokens(joined_pairs(front));
        assert(tokens(x) == tf.push(Seq::<char>::empty()));
        assert(Seq::<char>::empty() + item =~= item);
        assert(tokens(joined_pairs(ps)) =~= tf.push(item));
        assert(tf.push(item).drop_last() =~= tf);
        assert(tf.push(item).last() == item);
        assert(pairs_of_tokens(tf.push(item)) == Some(string_map(front).insert(p.0, json_string_of(p.2))));
    }
}

} // verus!
