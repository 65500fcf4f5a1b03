//! Prompt templates: sanitising text, extracting `{{variable}}`
//! placeholders and rendering a template against a JSON object.

use vstd::prelude::*;
use crate::json::{JsonValue, json_text, member_lookup, object_get, to_json_text};
use crate::text::{
    char_is_ascii_alphanumeric, char_is_control, char_is_whitespace, is_ascii_alphanumeric,
    is_control, is_whitespace, str_chars, string_from_chars,
};

verus! {

// ---------------------------------------------------------------------
// Errors
// ---------------------------------------------------------------------

/// Errors raised while building or rendering a prompt template.
#[derive(Debug, Clone, PartialEq, Eq)]
pub enum BeaconError {
    MissingTemplate,
    InvalidTemplate(String),
    MissingVariable(String),
    InvalidContext(String),
}

/// What a [`BeaconError`] holds, as character sequences.
pub enum BeaconFault {
    MissingTemplate,
    InvalidTemplate(Seq<char>),
    MissingVariable(Seq<char>),
    InvalidContext(Seq<char>),
}

impl View for BeaconError {
    type V = BeaconFault;

    open spec fn view(&self) -> BeaconFault {
        match self {
            BeaconError::MissingTemplate => BeaconFault::MissingTemplate,
            BeaconError::InvalidTemplate(m) => BeaconFault::InvalidTemplate(m@),
            BeaconError::MissingVariable(m) => BeaconFault::MissingVariable(m@),
            BeaconError::InvalidContext(m) => BeaconFault::InvalidContext(m@),
        }
    }
}

/// The human-readable message of a beacon error.
pub open spec fn beacon_message(e: BeaconFault) -> Seq<char> {
    match e {
        BeaconFault::MissingTemplate => "template is required"@,
        BeaconFault::InvalidTemplate(m) => "invalid template: "@ + m,
        BeaconFault::MissingVariable(m) => "missing template variable: "@ + m,
        BeaconFault::InvalidContext(m) => "invalid context: "@ + m,
    }
}

impl BeaconError {
    /// The error's message text.
    pub fn message(&self) -> (r: String)
        ensures
            r@ == beacon_message(self@),
    {
        match self {
            BeaconError::MissingTemplate => String::from_str("template is required"),
            BeaconError::InvalidTemplate(m) => {
                let mut r = String::from_str("invalid template: ");
                r.append(m.as_str());
                r
            },
            BeaconError::MissingVariable(m) => {
                let mut r = String::from_str("missing template variable: ");
                r.append(m.as_str());
                r
            },
            BeaconError::InvalidContext(m) => {
                let mut r = String::from_str("invalid context: ");
                r.append(m.as_str());
                r
            },
        }
    }
}

// ---------------------------------------------------------------------
// Sanitising
// ---------------------------------------------------------------------

/// Characters that survive sanitising: everything but control
/// characters, except newline, carriage return and tab.
pub open spec fn is_kept(c: char) -> bool {
    !is_control(c) || c == '\n' || c == '\r' || c == '\t'
}

/// Sanitising keeps a character exactly when it is no control character
/// (general category `Cc`: below U+0020 or from U+007F to U+009F), or is
/// one of tab, line feed and carriage return.
pub proof fn law_kept_characters(c: char)
    ensures
        is_kept(c) <==> {
            let n = c as u32;
            ||| !(n < 0x20 || (0x7f <= n && n < 0xa0))
            ||| n == 0x09
            ||| n == 0x0a
            ||| n == 0x0d
        },
{
}

/// `s` with every character that is not kept removed, order preserved.
pub open spec fn sanitize(s: Seq<char>) -> Seq<char>
    decreases s.len(),
{
    if s.len() == 0 {
        seq![]
    } else if is_kept(s.last()) {
        sanitize(s.drop_last()).push(s.last())
    } else {
        sanitize(s.drop_last())
    }
}

/// Every character of `s` is kept by sanitising.
pub open spec fn all_kept(s: Seq<char>) -> bool {
    forall|i: int| 0 <= i < s.len() ==> #[trigger] is_kept(s[i])
}

pub fn sanitize_chars(s: &Vec<char>) -> (r: Vec<char>)
    ensures
        r@ == sanitize(s@),
{
    let mut out: Vec<char> = Vec::new();
    let mut i: usize = 0;
    while i < s.len()
        invariant
            i <= s@.len(),
            out@ == sanitize(s@.take(i as int)),
        decreases s@.len() - i,
    {
        let c = s[i];
        proof {
            assert(s@.take(i + 1).drop_last() =~= s@.take(i as int));
            assert(s@.take(i + 1).last() == c);
        }
        if !char_is_control(c) || c == '\n' || c == '\r' || c == '\t' {
            out.push(c);
        }
        i = i + 1;
    }
    proof {
        assert(s@.take(i as int) =~= s@);
    }
    out
}

/// Removes control characters other than `\n`, `\r` and `\t`.
pub fn sanitize_text(input: &str) -> (r: String)
    ensures
        r@ == sanitize(input@),
{
    let chars = str_chars(input);
    let kept = sanitize_chars(&chars);
    string_from_chars(kept)
}

} // verus!

verus! {

// ---------------------------------------------------------------------
// Searching and trimming character sequences
// ---------------------------------------------------------------------

/// The characters `a`, `b` stand at positions `i`, `i + 1` of `s`.
pub open spec fn pair_at(s: Seq<char>, i: int, a: char, b: char) -> bool {
    0 <= i && i + 1 < s.len() && s[i] == a && s[i + 1] == b
}

/// The first position at or after `i` where `a`, `b` stand next to each
/// other (what `str::find` reports for a two-character pattern).
pub open spec fn find_pair_from(s: Seq<char>, a: char, b: char, i: int) -> Option<int>
    decreases s.len() - i,
{
    if i + 1 >= s.len() {
        None
    } else if pair_at(s, i, a, b) {
        Some(i)
    } else {
        find_pair_from(s, a, b, i + 1)
    }
}

pub proof fn lemma_find_pair_from(s: Seq<char>, a: char, b: char, i: int)
    ensures
        match find_pair_from(s, a, b, i) {
            Some(k) => {
                &&& i <= k
                &&& pair_at(s, k, a, b)
                &&& forall|j: int| i <= j < k ==> !pair_at(s, j, a, b)
            },
            None => forall|j: int| i <= j ==> !pair_at(s, j, a, b),
        },
    decreases s.len() - i,
{
    if i + 1 >= s.len() {
    } else if pair_at(s, i, a, b) {
    } else {
        lemma_find_pair_from(s, a, b, i + 1);
    }
}

/// First position at or after `from` where `a`, `b` stand next to each other.
pub fn find_pair(s: &Vec<char>, a: char, b: char, from: usize) -> (r: Option<usize>)
    ensures
        match r {
            Some(k) => find_pair_from(s@, a, b, from as int) == Some(k as int),
            None => find_pair_from(s@, a, b, from as int) is None,
        },
{
    let mut j = from;
    while j < s.len() && j + 1 < s.len()
        invariant
            from <= j,
            find_pair_from(s@, a, b, from as int) == find_pair_from(s@, a, b, j as int),
        decreases s@.len() - j,
    {
        if s[j] == a && s[j + 1] == b {
            return Some(j);
        }
        j = j + 1;
    }
    None
}

/// `s` without its leading whitespace.
pub open spec fn trim_start(s: Seq<char>) -> Seq<char>
    decreases s.len(),
{
    if s.len() > 0 && is_whitespace(s[0]) {
        trim_start(s.drop_first())
    } else {
        s
    }
}

/// `s` without its trailing whitespace.
pub open spec fn trim_end(s: Seq<char>) -> Seq<char>
    decreases s.len(),
{
    if s.len() > 0 && is_whitespace(s.last()) {
        trim_end(s.drop_last())
    } else {
        s
    }
}

/// `s` without leading and trailing whitespace (`str::trim`).
pub open spec fn trim(s: Seq<char>) -> Seq<char> {
    trim_end(trim_start(s))
}

/// Bounds of the trimmed part of `s[from..to]`.
pub fn trim_bounds(s: &Vec<char>, from: usize, to: usize) -> (r: (usize, usize))
    requires
        from <= to <= s@.len(),
    ensures
        from <= r.0 <= r.1 <= to,
        s@.subrange(r.0 as int, r.1 as int) == trim(s@.subrange(from as int, to as int)),
{
    let mut lo = from;
    while lo < to && char_is_whitespace(s[lo])
        invariant
            from <= lo <= to <= s@.len(),
            trim_start(s@.subrange(from as int, to as int)) == trim_start(
                s@.subrange(lo as int, to as int),
            ),
        decreases to - lo,
    {
        proof {
            assert(s@.subrange(lo as int, to as int).drop_first() =~= s@.subrange(
                lo + 1,
                to as int,
            ));
        }
        lo = lo + 1;
    }
    let mut hi = to;
    while hi > lo && char_is_whitespace(s[hi - 1])
        invariant
            from <= lo <= hi <= to <= s@.len(),
            trim_start(s@.subrange(from as int, to as int)) == s@.subrange(lo as int, to as int)
                || hi < to,
            trim(s@.subrange(from as int, to as int)) == trim_end(
                s@.subrange(lo as int, hi as int),
            ),
        decreases hi - lo,
    {
        proof {
            assert(s@.subrange(lo as int, hi as int).drop_last() =~= s@.subrange(
                lo as int,
                hi - 1,
            ));
        }
        hi = hi - 1;
    }
    (lo, hi)
}

// ---------------------------------------------------------------------
// Variable extraction
// ---------------------------------------------------------------------

/// Characters allowed in a variable name.
pub open spec fn is_name_char(c: char) -> bool {
    is_ascii_alphanumeric(c) || c == '_' || c == '-' || c == '.'
}

/// A variable name is any non-empty string of ASCII letters (either
/// case), ASCII digits, `_`, `-` and `.`.
pub proof fn law_valid_names(n: Seq<char>)
    ensures
        is_valid_name(n) <==> n.len() > 0 && forall|i: int|
            0 <= i < n.len() ==> {
                let c = (#[trigger] n[i]) as u32;
                ||| (0x61 <= c && c <= 0x7a)
                ||| (0x41 <= c && c <= 0x5a)
                ||| (0x30 <= c && c <= 0x39)
                ||| c == 0x5f
                ||| c == 0x2d
                ||| c == 0x2e
            },
{
    assert forall|i: int| 0 <= i < n.len() implies is_name_char(#[trigger] n[i]) == {
        let c = n[i] as u32;
        ||| (0x61 <= c && c <= 0x7a)
        ||| (0x41 <= c && c <= 0x5a)
        ||| (0x30 <= c && c <= 0x39)
        ||| c == 0x5f
        ||| c == 0x2d
        ||| c == 0x2e
    } by {
        lemma_name_char_codes(n[i]);
    }
}

proof fn lemma_name_char_codes(c: char)
    ensures
        is_name_char(c) == {
            let n = c as u32;
            ||| (0x61 <= n && n <= 0x7a)
            ||| (0x41 <= n && n <= 0x5a)
            ||| (0x30 <= n && n <= 0x39)
            ||| n == 0x5f
            ||| n == 0x2d
            ||| n == 0x2e
        },
{
}

/// A variable name: non-empty, made of name characters only.
pub open spec fn is_valid_name(n: Seq<char>) -> bool {
    n.len() > 0 && forall|i: int| 0 <= i < n.len() ==> #[trigger] is_name_char(n[i])
}

/// `found` with `name` appended unless it is already there.
pub open spec fn add_unique(found: Seq<Seq<char>>, name: Seq<char>) -> Seq<Seq<char>> {
    if found.contains(name) {
        found
    } else {
        found.push(name)
    }
}

/// The variables of template text `s` from position `pos` on, after
/// those already `found`: each `{{` opens a placeholder that the next
/// `}}` closes; the trimmed text between them must be a valid name, and
/// each name is listed once, in order of first appearance.
pub open spec fn extract_from(s: Seq<char>, pos: int, found: Seq<Seq<char>>) -> Result<
    Seq<Seq<char>>,
    BeaconFault,
>
    decreases s.len() - pos,
{
    match find_pair_from(s, '{', '{', pos) {
        None => Ok(found),
        Some(start) => match find_pair_from(s, '}', '}', start + 2) {
            None => Err(BeaconFault::InvalidTemplate("unclosed template variable"@)),
            Some(end) => {
                proof {
                    lemma_find_pair_from(s, '{', '{', pos);
                    lemma_find_pair_from(s, '}', '}', start + 2);
                }
                let name = trim(s.subrange(start + 2, end));
                if !is_valid_name(name) {
                    Err(BeaconFault::InvalidTemplate("invalid variable name: "@ + name))
                } else {
                    extract_from(s, end + 2, add_unique(found, name))
                }
            },
        },
    }
}

/// The variables of a whole template text.
pub open spec fn template_variables(s: Seq<char>) -> Result<Seq<Seq<char>>, BeaconFault> {
    extract_from(s, 0, seq![])
}

proof fn lemma_find_pair_first(s: Seq<char>, a: char, b: char, i: int, k: int)
    requires
        i <= k,
        pair_at(s, k, a, b),
        forall|j: int| i <= j < k ==> !pair_at(s, j, a, b),
    ensures
        find_pair_from(s, a, b, i) == Some(k),
    decreases k - i,
{
    if i < k {
        lemma_find_pair_first(s, a, b, i + 1, k);
    }
}

proof fn lemma_find_pair_none(s: Seq<char>, a: char, b: char, i: int)
    requires
        forall|j: int| i <= j ==> !pair_at(s, j, a, b),
    ensures
        find_pair_from(s, a, b, i) is None,
{
    lemma_find_pair_from(s, a, b, i);
}

/// A template made of one placeholder `{{n}}` of a valid name, with text
/// around it that opens no other, has exactly the variable `n`, trimmed
/// of nothing and accepted as it is.
pub proof fn law_one_placeholder_template(before: Seq<char>, n: Seq<char>, after: Seq<char>)
    requires
        is_valid_name(n),
        forall|i: int| 0 <= i < before.len() ==> before[i] != '{',
        forall|i: int| 0 <= i < after.len() ==> after[i] != '{',
    ensures
        template_variables(before + placeholder(n) + after) == Ok::<Seq<Seq<char>>, BeaconFault>(
            seq![n],
        ),
{
    let s = before + placeholder(n) + after;
    let b = before.len() as int;
    let m = n.len() as int;
    assert forall|j: int| 0 <= j < s.len() implies #[trigger] s[j] == if j < b {
        before[j]
    } else if j < b + 2 {
        '{'
    } else if j < b + 2 + m {
        n[j - b - 2]
    } else if j < b + 4 + m {
        '}'
    } else {
        after[j - b - 4 - m]
    } by {
        if b <= j < b + 4 + m {
            assert(s[j] == placeholder(n)[j - b]);
        }
    }
    assert forall|j: int| 0 <= j < b implies !pair_at(s, j, '{', '{') by {
        assert(s[j] == before[j]);
    }
    assert(pair_at(s, b, '{', '{'));
    lemma_find_pair_first(s, '{', '{', 0, b);
    assert forall|j: int| b + 2 <= j < b + 2 + m implies !pair_at(s, j, '}', '}') by {
        assert(s[j] == n[j - b - 2]);
        assert(is_name_char(n[j - b - 2]));
    }
    assert(pair_at(s, b + 2 + m, '}', '}'));
    lemma_find_pair_first(s, '}', '}', b + 2, b + 2 + m);
    assert(s.subrange(b + 2, b + 2 + m) =~= n);
    assert(is_name_char(n[0]));
    assert(is_name_char(n[m - 1]));
    assert(trim_start(n) == n);
    assert(trim_end(n) == n);
    assert forall|j: int| b + 4 + m <= j implies !pair_at(s, j, '{', '{') by {
        if j < s.len() {
            assert(s[j] == after[j - b - 4 - m]);
        }
    }
    lemma_find_pair_none(s, '{', '{', b + 4 + m);
    assert(add_unique(Seq::<Seq<char>>::empty(), n) =~= seq![n]);
    assert(trim(s.subrange(b + 2, b + 2 + m)) == n);
    assert(extract_from(s, b + 4 + m, seq![n]) == Ok::<Seq<Seq<char>>, BeaconFault>(seq![n]));
    assert(extract_from(s, 0, Seq::<Seq<char>>::empty()) == extract_from(
        s,
        b + 4 + m,
        add_unique(Seq::<Seq<char>>::empty(), n),
    ));
}

/// The views of a list of strings.
pub open spec fn names_of(v: Seq<String>) -> Seq<Seq<char>> {
    v.map_values(|x: String| x@)
}

/// A list of distinct valid variable names.
pub open spec fn distinct_valid_names(v: Seq<Seq<char>>) -> bool {
    &&& forall|i: int| 0 <= i < v.len() ==> #[trigger] is_valid_name(v[i])
    &&& forall|i: int, j: int| 0 <= i < j < v.len() ==> v[i] != v[j]
}

pub proof fn lemma_extract_distinct_valid(s: Seq<char>, pos: int, found: Seq<Seq<char>>)
    requires
        distinct_valid_names(found),
    ensures
        extract_from(s, pos, found) matches Ok(v) ==> distinct_valid_names(v),
    decreases s.len() - pos,
{
    match find_pair_from(s, '{', '{', pos) {
        None => {},
        Some(start) => match find_pair_from(s, '}', '}', start + 2) {
            None => {},
            Some(end) => {
                lemma_find_pair_from(s, '{', '{', pos);
                lemma_find_pair_from(s, '}', '}', start + 2);
                let name = trim(s.subrange(start + 2, end));
                if is_valid_name(name) {
                    let next = add_unique(found, name);
                    if !found.contains(name) {
                        assert forall|i: int, j: int| 0 <= i < j < next.len() implies next[i]
                            != next[j] by {
                            if j == found.len() {
                                assert(found[i] == next[i]);
                            }
                        }
                    }
                    lemma_extract_distinct_valid(s, end + 2, next);
                }
            },
        },
    }
}

fn contains_name(vars: &Vec<String>, name: &String) -> (r: bool)
    ensures
        r == names_of(vars@).contains(name@),
{
    let mut k: usize = 0;
    while k < vars.len()
        invariant
            k <= vars@.len(),
            forall|j: int| 0 <= j < k ==> names_of(vars@)[j] != name@,
        decreases vars@.len() - k,
    {
        if vars[k] == *name {
            proof {
                assert(names_of(vars@)[k as int] == name@);
            }
            return true;
        }
        k = k + 1;
    }
    false
}

/// The variables of `template`, or the reason it is malformed.
pub fn extract_variables(template: &str) -> (r: Result<Vec<String>, BeaconError>)
    ensures
        match r {
            Ok(v) => template_variables(template@) == Ok::<Seq<Seq<char>>, BeaconFault>(
                names_of(v@),
            ),
            Err(e) => template_variables(template@) == Err::<Seq<Seq<char>>, BeaconFault>(e@),
        },
        r matches Ok(v) ==> distinct_valid_names(names_of(v@)),
{
    let s = str_chars(template);
    let mut variables: Vec<String> = Vec::new();
    let mut pos: usize = 0;
    proof {
        assert(names_of(variables@) =~= seq![]);
    }
    while pos <= s.len()
        invariant
            s@ == template@,
            pos <= s@.len(),
            template_variables(s@) == extract_from(s@, pos as int, names_of(variables@)),
        decreases s@.len() - pos,
    {
        proof {
            lemma_find_pair_from(s@, '{', '{', pos as int);
        }
        let start = match find_pair(&s, '{', '{', pos) {
            None => {
                proof {
                    lemma_extract_distinct_valid(s@, 0, seq![]);
                }
                return Ok(variables);
            },
            Some(start) => start,
        };
        proof {
            lemma_find_pair_from(s@, '}', '}', start + 2);
        }
        let end = match find_pair(&s, '}', '}', start + 2) {
            None => {
                return Err(BeaconError::InvalidTemplate(String::from_str("unclosed template variable")));
            },
            Some(end) => end,
        };
        let (lo, hi) = trim_bounds(&s, start + 2, end);
        let mut valid = true;
        let mut k = lo;
        while k < hi
            invariant
                lo <= k <= hi <= s@.len(),
                valid == (forall|j: int| lo <= j < k ==> is_name_char(#[trigger] s@[j])),
            decreases hi - k,
        {
            let c = s[k];
            if !(char_is_ascii_alphanumeric(c) || c == '_' || c == '-' || c == '.') {
                valid = false;
            }
            k = k + 1;
        }
        let mut name_chars: Vec<char> = Vec::new();
        let mut k = lo;
        while k < hi
            invariant
                lo <= k <= hi <= s@.len(),
                name_chars@ == s@.subrange(lo as int, k as int),
            decreases hi - k,
        {
            name_chars.push(s[k]);
            proof {
                assert(s@.subrange(lo as int, k + 1) =~= s@.subrange(lo as int, k as int).push(s@[k as int]));
            }
            k = k + 1;
        }
        let name = string_from_chars(name_chars);
        let ghost gname = s@.subrange(lo as int, hi as int);
        if !valid || lo == hi {
            proof {
                if lo < hi {
                    assert(!is_valid_name(gname)) by {
                        let j = choose|j: int| lo <= j < hi && !is_name_char(#[trigger] s@[j]);
                        assert(gname[j - lo] == s@[j]);
                    }
                }
            }
            let mut msg = String::from_str("invalid variable name: ");
            msg.append(name.as_str());
            return Err(BeaconError::InvalidTemplate(msg));
        }
        proof {
            assert forall|i: int| 0 <= i < gname.len() implies #[trigger] is_name_char(gname[i]) by {
                assert(gname[i] == s@[lo + i]);
            }
        }
        let seen = contains_name(&variables, &name);
        if !seen {
            let ghost before = variables@;
            variables.push(name);
            proof {
                assert(names_of(variables@) =~= names_of(before).push(gname));
            }
        }
        pos = end + 2;
    }
    proof {
        lemma_extract_distinct_valid(s@, 0, seq![]);
    }
    Ok(variables)
}

} // verus!

verus! {

// ---------------------------------------------------------------------
// Rendering
// ---------------------------------------------------------------------

/// The placeholder text `{{name}}`.
pub open spec fn placeholder(name: Seq<char>) -> Seq<char> {
    seq!['{', '{'] + name + seq!['}', '}']
}

/// The text a context value contributes: a string's own characters,
/// any other value's JSON text.
pub open spec fn value_text(v: JsonValue) -> Seq<char> {
    match v {
        JsonValue::Str(s) => s@,
        _ => json_text(v),
    }
}

/// `t` begins with `p`.
pub open spec fn starts_with(t: Seq<char>, p: Seq<char>) -> bool {
    p.len() <= t.len() && t.take(p.len() as int) == p
}

/// The first of `vars`, from index `j` on, whose placeholder `t` begins
/// with.
pub open spec fn first_placeholder(t: Seq<char>, vars: Seq<Seq<char>>, j: int) -> Option<int>
    decreases vars.len() - j,
{
    if j < 0 || j >= vars.len() {
        None
    } else if starts_with(t, placeholder(vars[j])) {
        Some(j)
    } else {
        first_placeholder(t, vars, j + 1)
    }
}

/// What `first_placeholder` finds, and what it passes over.
pub proof fn lemma_first_placeholder(t: Seq<char>, vars: Seq<Seq<char>>, j: int)
    requires
        0 <= j,
    ensures
        match first_placeholder(t, vars, j) {
            Some(k) => j <= k < vars.len() && starts_with(t, placeholder(vars[k])) && forall|m: int|
                j <= m < k ==> !starts_with(t, #[trigger] placeholder(vars[m])),
            None => forall|m: int| j <= m < vars.len() ==> !starts_with(t, #[trigger] placeholder(vars[m])),
        },
    decreases vars.len() - j,
{
    if j < vars.len() && !starts_with(t, placeholder(vars[j])) {
        lemma_first_placeholder(t, vars, j + 1);
    }
}

/// One left-to-right pass over template text `t`: where the placeholder
/// of one of `vars` begins, the matching entry of `vals` is put in its
/// place and the pass goes on after the placeholder; every other
/// character is kept. Inserted text is never scanned again.
pub open spec fn substitute(t: Seq<char>, vars: Seq<Seq<char>>, vals: Seq<Seq<char>>) -> Seq<char>
    decreases t.len(),
{
    if t.len() == 0 {
        seq![]
    } else {
        match first_placeholder(t, vars, 0) {
            Some(j) => {
                proof {
                    lemma_first_placeholder(t, vars, 0);
                }
                vals[j] + substitute(t.skip(placeholder(vars[j]).len() as int), vars, vals)
            },
            None => seq![t[0]] + substitute(t.drop_first(), vars, vals),
        }
    }
}

/// The sanitised text of member `name`.
pub open spec fn value_for(members: Seq<(String, JsonValue)>, name: Seq<char>) -> Seq<char> {
    sanitize(value_text(member_lookup(members, name)->0))
}

/// The sanitised texts of the members named by `vars`, in order, or the
/// error for the first of `vars` that has no member.
pub open spec fn values_of(vars: Seq<Seq<char>>, members: Seq<(String, JsonValue)>) -> Result<
    Seq<Seq<char>>,
    BeaconFault,
>
    decreases vars.len(),
{
    if vars.len() == 0 {
        Ok(seq![])
    } else {
        match values_of(vars.drop_last(), members) {
            Err(e) => Err(e),
            Ok(vs) => match member_lookup(members, vars.last()) {
                None => Err(BeaconFault::MissingVariable(vars.last())),
                Some(v) => Ok(vs.push(sanitize(value_text(v)))),
            },
        }
    }
}

/// Renders `text` against `members`: every variable must have a member
/// (else the first that has none is reported); then each placeholder is
/// replaced in one pass by its variable's sanitised value.
pub open spec fn render_with(
    text: Seq<char>,
    vars: Seq<Seq<char>>,
    members: Seq<(String, JsonValue)>,
) -> Result<Seq<char>, BeaconFault> {
    match values_of(vars, members) {
        Err(e) => Err(e),
        Ok(vals) => Ok(substitute(text, vars, vals)),
    }
}

/// What `values_of` gives: one value per variable, each the sanitised
/// text of its member, exactly when every variable has a member.
pub proof fn lemma_values_of(vars: Seq<Seq<char>>, members: Seq<(String, JsonValue)>)
    ensures
        (forall|k: int| 0 <= k < vars.len() ==> (#[trigger] member_lookup(members, vars[k])) is Some)
            ==> values_of(vars, members) is Ok,
        values_of(vars, members) matches Ok(vs) ==> vs.len() == vars.len() && forall|k: int|
            0 <= k < vars.len() ==> #[trigger] vs[k] == value_for(members, vars[k]),
    decreases vars.len(),
{
    if vars.len() > 0 {
        let init = vars.drop_last();
        lemma_values_of(init, members);
        if forall|k: int| 0 <= k < vars.len() ==> (#[trigger] member_lookup(members, vars[k])) is Some {
            assert forall|k: int| 0 <= k < init.len() implies (#[trigger] member_lookup(
                members,
                init[k],
            )) is Some by {
                assert(init[k] == vars[k]);
                assert(member_lookup(members, vars[k]) is Some);
            }
            assert(member_lookup(members, vars[vars.len() - 1]) is Some);
        }
        if let Ok(vs) = values_of(vars, members) {
            if let Ok(ws) = values_of(init, members) {
                assert forall|k: int| 0 <= k < vars.len() implies #[trigger] vs[k] == value_for(
                    members,
                    vars[k],
                ) by {
                    if k < init.len() {
                        assert(vs[k] == ws[k]);
                        assert(init[k] == vars[k]);
                    }
                }
            }
        }
    }
}

/// An error of a prefix of the variables is the error of them all.
proof fn lemma_values_prefix_err(vars: Seq<Seq<char>>, i: int, members: Seq<(String, JsonValue)>)
    requires
        0 <= i <= vars.len(),
        values_of(vars.take(i), members) is Err,
    ensures
        values_of(vars, members) == values_of(vars.take(i), members),
    decreases vars.len() - i,
{
    if i == vars.len() {
        assert(vars.take(i) =~= vars);
    } else {
        assert(vars.take(i + 1).drop_last() =~= vars.take(i));
        lemma_values_prefix_err(vars, i + 1, members);
    }
}

/// The result of rendering template text with its variables against a
/// context value, which must be a JSON object.
pub open spec fn render_spec(template: Seq<char>, vars: Seq<Seq<char>>, context: JsonValue) -> Result<
    Seq<char>,
    BeaconFault,
> {
    match context {
        JsonValue::Object(members) => render_with(template, vars, members@),
        _ => Err(BeaconFault::InvalidContext("prompt context must serialize to a JSON object"@)),
    }
}

fn append_chars(out: &mut Vec<char>, more: &Vec<char>)
    ensures
        final(out)@ == old(out)@ + more@,
{
    let mut i: usize = 0;
    while i < more.len()
        invariant
            i <= more@.len(),
            out@ == old(out)@ + more@.take(i as int),
        decreases more@.len() - i,
    {
        out.push(more[i]);
        proof {
            assert(more@.take(i + 1) =~= more@.take(i as int).push(more@[i as int]));
        }
        i = i + 1;
    }
    proof {
        assert(more@.take(i as int) =~= more@);
    }
}

fn occurs_at(s: &Vec<char>, i: usize, p: &Vec<char>) -> (r: bool)
    requires
        i + p@.len() <= s@.len(),
    ensures
        r == (s@.skip(i as int).take(p@.len() as int) == p@),
{
    let n = s.len();
    let mut k: usize = 0;
    while k < p.len()
        invariant
            k <= p@.len(),
            i + p@.len() <= s@.len(),
            n == s@.len(),
            forall|j: int| 0 <= j < k ==> s@[i + j] == p@[j],
        decreases p@.len() - k,
    {
        if s[i + k] != p[k] {
            proof {
                assert(s@.skip(i as int).take(p@.len() as int)[k as int] != p@[k as int]);
            }
            return false;
        }
        k = k + 1;
    }
    proof {
        assert(s@.skip(i as int).take(p@.len() as int) =~= p@);
    }
    true
}

/// The texts of a list of character vectors.
pub open spec fn char_texts(v: Seq<Vec<char>>) -> Seq<Seq<char>> {
    v.map_values(|x: Vec<char>| x@)
}

fn placeholder_chars(name: &String) -> (r: Vec<char>)
    ensures
        r@ == placeholder(name@),
{
    let mut r: Vec<char> = Vec::new();
    r.push('{');
    r.push('{');
    let inner = str_chars(name.as_str());
    append_chars(&mut r, &inner);
    r.push('}');
    r.push('}');
    proof {
        assert(r@ =~= placeholder(name@));
    }
    r
}

fn value_to_string(value: &JsonValue) -> (r: String)
    ensures
        r@ == value_text(*value),
{
    match value {
        JsonValue::Str(text) => text.clone(),
        _ => to_json_text(value),
    }
}

} // verus!

verus! {

// ---------------------------------------------------------------------
// Templates and their builder
// ---------------------------------------------------------------------

/// A sanitised template text together with its variables, in order of
/// first appearance.
#[derive(Debug, Clone, PartialEq, Eq)]
pub struct PromptTemplate {
    pub template: String,
    pub variables: Vec<String>,
}

impl PromptTemplate {
    /// Renders the template against `context`, the JSON value of the
    /// caller's context.
    pub fn render(&self, context: &JsonValue) -> (r: Result<String, BeaconError>)
        ensures
            match render_spec(self.template@, names_of(self.variables@), *context) {
                Ok(t) => r matches Ok(s) && s@ == t,
                Err(e) => r matches Err(err) && err@ == e,
            },
    {
        let members = match context {
            JsonValue::Object(members) => members,
            _ => {
                return Err(
                    BeaconError::InvalidContext(
                        String::from_str("prompt context must serialize to a JSON object"),
                    ),
                );
            },
        };
        let ghost vars = names_of(self.variables@);
        let mut vals: Vec<Vec<char>> = Vec::new();
        let mut pats: Vec<Vec<char>> = Vec::new();
        let mut i: usize = 0;
        proof {
            assert(vars.take(0) =~= Seq::<Seq<char>>::empty());
            assert(char_texts(vals@) =~= Seq::<Seq<char>>::empty());
        }
        while i < self.variables.len()
            invariant
                i <= self.variables@.len(),
                vars == names_of(self.variables@),
                *context == JsonValue::Object(*members),
                values_of(vars.take(i as int), members@) == Ok::<Seq<Seq<char>>, BeaconFault>(
                    char_texts(vals@),
                ),
                pats@.len() == i,
                forall|k: int| 0 <= k < i ==> (#[trigger] pats@[k])@ == placeholder(vars[k]),
            decreases self.variables@.len() - i,
        {
            let name = &self.variables[i];
            proof {
                assert(vars.take(i + 1).drop_last() =~= vars.take(i as int));
                assert(vars.take(i + 1).last() == name@);
            }
            let value = match object_get(members, name.as_str()) {
                None => {
                    proof {
                        lemma_values_prefix_err(vars, i + 1, members@);
                    }
                    return Err(BeaconError::MissingVariable(name.clone()));
                },
                Some(value) => value,
            };
            let text = value_to_string(value);
            let replacement = sanitize_chars(&str_chars(text.as_str()));
            let ghost before = char_texts(vals@);
            vals.push(replacement);
            pats.push(placeholder_chars(name));
            proof {
                assert(char_texts(vals@) =~= before.push(sanitize(value_text(*value))));
            }
            i = i + 1;
        }
        proof {
            assert(vars.take(i as int) =~= vars);
            lemma_values_of(vars, members@);
            assert(char_texts(vals@).len() == vals@.len());
        }
        let ghost vv = char_texts(vals@);
        let t = str_chars(self.template.as_str());
        let mut out: Vec<char> = Vec::new();
        let mut i: usize = 0;
        proof {
            assert(t@.skip(0) =~= t@);
            assert(out@ + substitute(t@, vars, vv) =~= substitute(t@, vars, vv));
        }
        while i < t.len()
            invariant
                i <= t@.len(),
                vars == names_of(self.variables@),
                vv == char_texts(vals@),
                vals@.len() == vars.len(),
                pats@.len() == vars.len(),
                forall|k: int| 0 <= k < vars.len() ==> (#[trigger] pats@[k])@ == placeholder(vars[k]),
                out@ + substitute(t@.skip(i as int), vars, vv) == substitute(t@, vars, vv),
            decreases t@.len() - i,
        {
            let ghost rest = t@.skip(i as int);
            let mut j: usize = 0;
            let mut found: Option<usize> = None;
            while j < pats.len() && found.is_none()
                invariant
                    j <= pats@.len(),
                    i < t@.len(),
                    rest == t@.skip(i as int),
                    pats@.len() == vars.len(),
                    forall|k: int| 0 <= k < vars.len() ==> (#[trigger] pats@[k])@ == placeholder(vars[k]),
                    match found {
                        None => first_placeholder(rest, vars, 0) == first_placeholder(rest, vars, j as int),
                        Some(k) => first_placeholder(rest, vars, 0) == Some(k as int) && k < vars.len(),
                    },
                decreases pats@.len() - j,
            {
                let fits = pats[j].len() <= t.len() - i;
                if fits && occurs_at(&t, i, &pats[j]) {
                    proof {
                        assert(rest.take(pats@[j as int]@.len() as int) == t@.skip(i as int).take(
                            pats@[j as int]@.len() as int,
                        ));
                        assert(starts_with(rest, placeholder(vars[j as int])));
                    }
                    found = Some(j);
                } else {
                    proof {
                        assert(!starts_with(rest, placeholder(vars[j as int])));
                    }
                }
                j = j + 1;
            }
            proof {
                if found is None {
                    assert(first_placeholder(rest, vars, j as int) is None);
                }
                lemma_first_placeholder(rest, vars, 0);
            }
            match found {
                Some(k) => {
                    let n = pats[k].len();
                    proof {
                        assert(rest.skip(n as int) =~= t@.skip(i + n));
                        assert(vv[k as int] == vals@[k as int]@);
                    }
                    let ghost before = out@;
                    append_chars(&mut out, &vals[k]);
                    proof {
                        assert(before + (vv[k as int] + substitute(t@.skip(i + n), vars, vv)) =~= out@
                            + substitute(t@.skip(i + n), vars, vv));
                    }
                    i = i + n;
                },
                None => {
                    proof {
                        assert(rest.drop_first() =~= t@.skip(i + 1));
                    }
                    let ghost before = out@;
                    out.push(t[i]);
                    proof {
                        assert(before + (seq![rest[0]] + substitute(t@.skip(i + 1), vars, vv)) =~= out@
                            + substitute(t@.skip(i + 1), vars, vv));
                    }
                    i = i + 1;
                },
            }
        }
        proof {
            assert(t@.skip(i as int) =~= Seq::<char>::empty());
            assert(out@ + Seq::<char>::empty() =~= out@);
        }
        Ok(string_from_chars(out))
    }
}

/// Collects a template text and builds a [`PromptTemplate`] from it.
#[derive(Debug, Clone)]
pub struct PromptBuilder {
    template: Option<String>,
}

impl PromptBuilder {
    /// The template text given so far, if any.
    pub closed spec fn pending(&self) -> Option<Seq<char>> {
        match self.template {
            Some(t) => Some(t@),
            None => None,
        }
    }

    pub fn new() -> (b: Self)
        ensures
            b.pending() is None,
    {
        PromptBuilder { template: None }
    }

    /// Sets (or replaces) the template text.
    pub fn template(self, template: &str) -> (b: Self)
        ensures
            b.pending() == Some(template@),
    {
        PromptBuilder { template: Some(String::from_str(template)) }
    }

    /// Sanitises the template text and extracts its variables.
    pub fn build(self) -> (r: Result<PromptTemplate, BeaconError>)
        ensures
            match self.pending() {
                None => r matches Err(e) && e@ == BeaconFault::MissingTemplate,
                Some(t) => match template_variables(sanitize(t)) {
                    Ok(vars) => r matches Ok(p) && p.template@ == sanitize(t) && names_of(
                        p.variables@,
                    ) == vars,
                    Err(e) => r matches Err(err) && err@ == e,
                },
            },
            r matches Ok(p) ==> all_kept(p.template@) && distinct_valid_names(
                names_of(p.variables@),
            ),
    {
        let template = match self.template {
            None => {
                return Err(BeaconError::MissingTemplate);
            },
            Some(t) => t,
        };
        let cleaned = sanitize_text(template.as_str());
        proof {
            law_sanitize_output_is_clean(template@);
        }
        let variables = extract_variables(cleaned.as_str())?;
        Ok(PromptTemplate { template: cleaned, variables })
    }
}

impl Default for PromptBuilder {
    fn default() -> (b: Self)
        ensures
            b.pending() is None,
    {
        PromptBuilder::new()
    }
}

/// Entry points for building and rendering prompt templates.
#[derive(Debug, Clone, Copy, Default)]
pub struct PromptOrchestrator;

impl PromptOrchestrator {
    /// Builds a template from raw template text.
    pub fn build_template(&self, raw_template: &str) -> (r: Result<PromptTemplate, BeaconError>)
        ensures
            match template_variables(sanitize(raw_template@)) {
                Ok(vars) => r matches Ok(p) && p.template@ == sanitize(raw_template@) && names_of(
                    p.variables@,
                ) == vars,
                Err(e) => r matches Err(err) && err@ == e,
            },
    {
        PromptBuilder::new().template(raw_template).build()
    }

    /// Renders `template` against the JSON value of a context.
    pub fn render_template(&self, template: &PromptTemplate, context: &JsonValue) -> (r: Result<
        String,
        BeaconError,
    >)
        ensures
            match render_spec(template.template@, names_of(template.variables@), *context) {
                Ok(t) => r matches Ok(s) && s@ == t,
                Err(e) => r matches Err(err) && err@ == e,
            },
    {
        template.render(context)
    }
}

// ---------------------------------------------------------------------
// Laws
// ---------------------------------------------------------------------

/// Sanitised text holds no control character other than `\n`, `\r`, `\t`.
pub proof fn law_sanitize_output_is_clean(s: Seq<char>)
    ensures
        all_kept(sanitize(s)),
    decreases s.len(),
{
    if s.len() > 0 {
        law_sanitize_output_is_clean(s.drop_last());
    }
}

/// Sanitising text that holds no stray control character changes nothing.
pub proof fn law_sanitize_keeps_clean_text(s: Seq<char>)
    requires
        all_kept(s),
    ensures
        sanitize(s) == s,
    decreases s.len(),
{
    if s.len() > 0 {
        assert(all_kept(s.drop_last())) by {
            assert forall|i: int| 0 <= i < s.drop_last().len() implies #[trigger] is_kept(
                s.drop_last()[i],
            ) by {
                assert(s.drop_last()[i] == s[i]);
            }
        }
        law_sanitize_keeps_clean_text(s.drop_last());
        assert(is_kept(s[s.len() - 1]));
        assert(s.drop_last().push(s.last()) =~= s);
    }
}

/// Sanitising twice is the same as sanitising once.
pub proof fn law_sanitize_idempotent(s: Seq<char>)
    ensures
        sanitize(sanitize(s)) == sanitize(s),
{
    law_sanitize_output_is_clean(s);
    law_sanitize_keeps_clean_text(sanitize(s));
}

/// No character of `s` is a stray control character.
proof fn lemma_kept_skip(s: Seq<char>, n: int)
    requires
        all_kept(s),
        0 <= n <= s.len(),
    ensures
        all_kept(s.skip(n)),
{
    assert forall|i: int| 0 <= i < s.skip(n).len() implies #[trigger] is_kept(s.skip(n)[i]) by {
        assert(s.skip(n)[i] == s[i + n]);
    }
}

proof fn lemma_kept_concat(a: Seq<char>, b: Seq<char>)
    requires
        all_kept(a),
        all_kept(b),
    ensures
        all_kept(a + b),
{
    assert forall|i: int| 0 <= i < (a + b).len() implies #[trigger] is_kept((a + b)[i]) by {
        if i < a.len() {
            assert((a + b)[i] == a[i]);
        } else {
            assert((a + b)[i] == b[i - a.len()]);
        }
    }
}

proof fn lemma_substitute_kept(t: Seq<char>, vars: Seq<Seq<char>>, vals: Seq<Seq<char>>)
    requires
        all_kept(t),
        vals.len() == vars.len(),
        forall|k: int| 0 <= k < vals.len() ==> all_kept(#[trigger] vals[k]),
    ensures
        all_kept(substitute(t, vars, vals)),
    decreases t.len(),
{
    if t.len() > 0 {
        lemma_first_placeholder(t, vars, 0);
        match first_placeholder(t, vars, 0) {
            Some(j) => {
                let n = placeholder(vars[j]).len() as int;
                lemma_kept_skip(t, n);
                lemma_substitute_kept(t.skip(n), vars, vals);
                lemma_kept_concat(vals[j], substitute(t.skip(n), vars, vals));
            },
            None => {
                lemma_kept_skip(t, 1);
                assert(t.skip(1) =~= t.drop_first());
                lemma_substitute_kept(t.drop_first(), vars, vals);
                assert(all_kept(seq![t[0]])) by {
                    assert(seq![t[0]][0] == t[0]);
                }
                lemma_kept_concat(seq![t[0]], substitute(t.drop_first(), vars, vals));
            },
        }
    }
}

/// Rendering a clean template never brings in a control character other
/// than `\n`, `\r` or `\t`, whatever the context's values hold.
pub proof fn law_rendered_text_is_clean(template: Seq<char>, vars: Seq<Seq<char>>, context: JsonValue)
    requires
        all_kept(template),
    ensures
        render_spec(template, vars, context) matches Ok(t) ==> all_kept(t),
{
    if let JsonValue::Object(members) = context {
        lemma_values_of(vars, members@);
        if let Ok(vals) = values_of(vars, members@) {
            assert forall|k: int| 0 <= k < vals.len() implies all_kept(#[trigger] vals[k]) by {
                law_sanitize_output_is_clean(value_text(member_lookup(members@, vars[k])->0));
            }
            lemma_substitute_kept(template, vars, vals);
        }
    }
}

/// `p` occurs in `s` starting at `i`.
pub open spec fn occurs_at_index(s: Seq<char>, p: Seq<char>, i: int) -> bool {
    0 <= i && i + p.len() <= s.len() && s.subrange(i, i + p.len()) == p
}

/// `p` occurs somewhere in `s`.
pub open spec fn occurs_in(s: Seq<char>, p: Seq<char>) -> bool {
    exists|i: int| occurs_at_index(s, p, i)
}

/// No placeholder of `vars` begins at position `i` of `s`.
pub open spec fn clear_at(s: Seq<char>, vars: Seq<Seq<char>>, i: int) -> bool {
    first_placeholder(s.skip(i), vars, 0) is None
}

/// Text in front of which no placeholder begins passes through a render
/// unchanged.
proof fn lemma_substitute_clear_prefix(
    x: Seq<char>,
    y: Seq<char>,
    vars: Seq<Seq<char>>,
    vals: Seq<Seq<char>>,
)
    requires
        forall|i: int| 0 <= i < x.len() ==> #[trigger] clear_at(x + y, vars, i),
    ensures
        substitute(x + y, vars, vals) == x + substitute(y, vars, vals),
    decreases x.len(),
{
    if x.len() == 0 {
        assert(x + y =~= y);
    } else {
        let s = x + y;
        assert(clear_at(s, vars, 0));
        assert(s.skip(0) =~= s);
        let x1 = x.drop_first();
        assert(s.drop_first() =~= x1 + y);
        assert forall|i: int| 0 <= i < x1.len() implies #[trigger] clear_at(x1 + y, vars, i) by {
            assert(clear_at(s, vars, i + 1));
            assert((x1 + y).skip(i) =~= s.skip(i + 1));
        }
        lemma_substitute_clear_prefix(x1, y, vars, vals);
        assert(seq![x[0]] + (x1 + substitute(y, vars, vals)) =~= x + substitute(y, vars, vals));
    }
}

/// In `x + y`, where `x` holds no placeholder of `vars` and `y` is empty
/// or begins with `{{`, no placeholder of `vars` begins inside `x`: one
/// that ran on into `y` would need a third `{` in a row.
proof fn lemma_segment_clear(x: Seq<char>, y: Seq<char>, vars: Seq<Seq<char>>)
    requires
        forall|k: int| 0 <= k < vars.len() ==> is_valid_name(#[trigger] vars[k]),
        forall|k: int| 0 <= k < vars.len() ==> !occurs_in(x, placeholder(#[trigger] vars[k])),
        y.len() == 0 || (y.len() >= 2 && y[0] == '{' && y[1] == '{'),
    ensures
        forall|i: int| 0 <= i < x.len() ==> #[trigger] clear_at(x + y, vars, i),
{
    let s = x + y;
    assert forall|i: int| 0 <= i < x.len() implies #[trigger] clear_at(s, vars, i) by {
        let t = s.skip(i);
        lemma_first_placeholder(t, vars, 0);
        if let Some(k) = first_placeholder(t, vars, 0) {
            let name = vars[k];
            let p = placeholder(name);
            assert(is_valid_name(name));
            assert(t.take(p.len() as int) == p);
            if i + p.len() <= x.len() {
                assert(x.subrange(i, i + p.len()) =~= p) by {
                    assert forall|m: int| 0 <= m < p.len() implies x.subrange(i, i + p.len())[m]
                        == p[m] by {
                        assert(t.take(p.len() as int)[m] == s[i + m]);
                    }
                }
                assert(occurs_at_index(x, p, i));
                assert(!occurs_in(x, placeholder(vars[k])));
            } else {
                let d = x.len() - i;
                assert(t.take(p.len() as int)[d] == s[x.len() as int]);
                assert(s[x.len() as int] == y[0]);
                if d >= 2 {
                    if d < 2 + name.len() {
                        assert(p[d] == name[d - 2]);
                        assert(is_name_char(name[d - 2]));
                    } else {
                        assert(p[d] == '}');
                    }
                } else {
                    assert(d == 1);
                    assert(t.take(p.len() as int)[2] == s[x.len() as int + 1]);
                    assert(s[x.len() as int + 1] == y[1]);
                    assert(p[2] == name[0]);
                    assert(is_name_char(name[0]));
                }
            }
        }
    }
}

/// A placeholder of a valid name is not the start of another one's: the
/// name ends where the first `}` stands.
proof fn lemma_placeholder_prefix(w: Seq<char>, v: Seq<char>, rest: Seq<char>)
    requires
        is_valid_name(w),
        is_valid_name(v),
        starts_with(placeholder(v) + rest, placeholder(w)),
    ensures
        w == v,
{
    let t = placeholder(v) + rest;
    let lw = w.len() as int;
    let lv = v.len() as int;
    let pw = placeholder(w);
    let pv = placeholder(v);
    assert(t.take(pw.len() as int) == pw);
    if w.len() < v.len() {
        assert(t.take(pw.len() as int)[2 + lw] == pw[2 + lw]);
        assert(pw[2 + lw] == '}');
        assert(t[2 + lw] == pv[2 + lw]);
        assert(pv[2 + lw] == v[lw]);
        assert(is_name_char(v[lw]));
    } else if w.len() > v.len() {
        assert(t.take(pw.len() as int)[2 + lv] == pw[2 + lv]);
        assert(pw[2 + lv] == w[lv]);
        assert(is_name_char(w[lv]));
        assert(t[2 + lv] == pv[2 + lv]);
        assert(pv[2 + lv] == '}');
    } else {
        assert forall|m: int| 0 <= m < w.len() implies w[m] == v[m] by {
            assert(t.take(pw.len() as int)[2 + m] == pw[2 + m]);
            assert(pw[2 + m] == w[m]);
            assert(t[2 + m] == pv[2 + m]);
            assert(pv[2 + m] == v[m]);
        }
        assert(w =~= v);
    }
}

/// A render of text that begins with the placeholder of variable `v`
/// puts `v`'s value first and goes on after the placeholder.
proof fn lemma_substitute_head(
    v: Seq<char>,
    rest: Seq<char>,
    vars: Seq<Seq<char>>,
    vals: Seq<Seq<char>>,
) -> (j: int)
    requires
        forall|k: int| 0 <= k < vars.len() ==> is_valid_name(#[trigger] vars[k]),
        vars.contains(v),
    ensures
        0 <= j < vars.len(),
        vars[j] == v,
        substitute(placeholder(v) + rest, vars, vals) == vals[j] + substitute(rest, vars, vals),
{
    let t = placeholder(v) + rest;
    let m = choose|m: int| 0 <= m < vars.len() && vars[m] == v;
    assert(t.take(placeholder(v).len() as int) =~= placeholder(v));
    assert(starts_with(t, placeholder(vars[m])));
    lemma_first_placeholder(t, vars, 0);
    let j = first_placeholder(t, vars, 0)->0;
    assert(is_valid_name(vars[j]));
    assert(is_valid_name(v));
    lemma_placeholder_prefix(vars[j], v, rest);
    assert(t.skip(placeholder(v).len() as int) =~= rest);
    j
}

/// `segs[0] + mids[0] + segs[1] + … + mids[n-1] + segs[n]`.
pub open spec fn interleave(segs: Seq<Seq<char>>, mids: Seq<Seq<char>>) -> Seq<char>
    decreases mids.len(),
{
    if segs.len() == 0 {
        seq![]
    } else if mids.len() == 0 {
        segs[0]
    } else {
        segs[0] + mids[0] + interleave(segs.drop_first(), mids.drop_first())
    }
}

proof fn lemma_substitute_segments(
    segs: Seq<Seq<char>>,
    names: Seq<Seq<char>>,
    vars: Seq<Seq<char>>,
    vals: Seq<Seq<char>>,
    members: Seq<(String, JsonValue)>,
)
    requires
        segs.len() == names.len() + 1,
        vals.len() == vars.len(),
        forall|k: int| 0 <= k < vars.len() ==> #[trigger] vals[k] == value_for(members, vars[k]),
        forall|k: int| 0 <= k < vars.len() ==> is_valid_name(#[trigger] vars[k]),
        forall|k: int| 0 <= k < names.len() ==> vars.contains(#[trigger] names[k]),
        forall|s: int, k: int|
            0 <= s < segs.len() && 0 <= k < vars.len() ==> !occurs_in(
                #[trigger] segs[s],
                placeholder(#[trigger] vars[k]),
            ),
    ensures
        substitute(
            interleave(segs, names.map_values(|n: Seq<char>| placeholder(n))),
            vars,
            vals,
        ) == interleave(segs, names.map_values(|n: Seq<char>| value_for(members, n))),
    decreases names.len(),
{
    let ps = names.map_values(|n: Seq<char>| placeholder(n));
    let vs = names.map_values(|n: Seq<char>| value_for(members, n));
    let x = segs[0];
    assert forall|k: int| 0 <= k < vars.len() implies !occurs_in(x, placeholder(#[trigger] vars[k])) by {
        assert(!occurs_in(segs[0], placeholder(vars[k])));
    }
    if names.len() == 0 {
        lemma_segment_clear(x, seq![], vars);
        lemma_substitute_clear_prefix(x, seq![], vars, vals);
        assert(x + Seq::<char>::empty() =~= x);
        assert(substitute(Seq::<char>::empty(), vars, vals) =~= Seq::<char>::empty());
    } else {
        let segs1 = segs.drop_first();
        let names1 = names.drop_first();
        assert(ps.drop_first() =~= names1.map_values(|n: Seq<char>| placeholder(n)));
        assert(vs.drop_first() =~= names1.map_values(|n: Seq<char>| value_for(members, n)));
        let rest = interleave(segs1, ps.drop_first());
        let y = ps[0] + rest;
        assert(ps[0] == placeholder(names[0]));
        assert(interleave(segs, ps) =~= x + y);
        lemma_segment_clear(x, y, vars);
        lemma_substitute_clear_prefix(x, y, vars, vals);
        assert(vars.contains(names[0]));
        let j = lemma_substitute_head(names[0], rest, vars, vals);
        assert forall|k: int| 0 <= k < names1.len() implies vars.contains(#[trigger] names1[k]) by {
            assert(names1[k] == names[k + 1]);
            assert(vars.contains(names[k + 1]));
        }
        assert forall|s: int, k: int|
            0 <= s < segs1.len() && 0 <= k < vars.len() implies !occurs_in(
                #[trigger] segs1[s],
                placeholder(#[trigger] vars[k]),
            ) by {
            assert(segs1[s] == segs[s + 1]);
            assert(!occurs_in(segs[s + 1], placeholder(vars[k])));
        }
        lemma_substitute_segments(segs1, names1, vars, vals, members);
        assert(vals[j] == value_for(members, vars[j]));
        assert(vs[0] == value_for(members, names[0]));
        assert(interleave(segs, vs) =~= x + vs[0] + interleave(segs1, vs.drop_first()));
        assert(x + (vals[j] + substitute(rest, vars, vals)) =~= x + vs[0] + interleave(
            segs1,
            vs.drop_first(),
        ));
    }
}

/// Values are inserted verbatim, in one pass: for template text
/// `s0 + {{v1}} + s1 + … + {{vn}} + sn`, where no `si` holds a
/// placeholder of a variable, the render is
/// `s0 + value(v1) + s1 + … + value(vn) + sn`, the values sanitised and
/// never scanned again, whatever placeholders they spell.
pub proof fn law_value_inserted_verbatim(
    segs: Seq<Seq<char>>,
    names: Seq<Seq<char>>,
    vars: Seq<Seq<char>>,
    members: Seq<(String, JsonValue)>,
)
    requires
        segs.len() == names.len() + 1,
        forall|k: int| 0 <= k < vars.len() ==> is_valid_name(#[trigger] vars[k]),
        forall|k: int| 0 <= k < names.len() ==> vars.contains(#[trigger] names[k]),
        forall|k: int| 0 <= k < vars.len() ==> (#[trigger] member_lookup(members, vars[k])) is Some,
        forall|s: int, k: int|
            0 <= s < segs.len() && 0 <= k < vars.len() ==> !occurs_in(
                #[trigger] segs[s],
                placeholder(#[trigger] vars[k]),
            ),
    ensures
        render_with(interleave(segs, names.map_values(|n: Seq<char>| placeholder(n))), vars, members)
            == Ok::<Seq<char>, BeaconFault>(
            interleave(segs, names.map_values(|n: Seq<char>| value_for(members, n))),
        ),
{
    lemma_values_of(vars, members);
    let vals = values_of(vars, members)->Ok_0;
    lemma_substitute_segments(segs, names, vars, vals, members);
}

/// Template text without `{{` has no variables.
pub proof fn law_plain_template_has_no_variables(s: Seq<char>)
    requires
        forall|i: int| !pair_at(s, i, '{', '{'),
    ensures
        template_variables(s) == Ok::<Seq<Seq<char>>, BeaconFault>(seq![]),
{
    lemma_find_pair_from(s, '{', '{', 0);
}

} // verus!
