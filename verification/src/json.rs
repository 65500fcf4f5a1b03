//! A plain-value model of JSON documents and its compact text form.
//!
//! Parsing JSON text is serde_json's work and happens where text enters
//! the program; the library works on [`JsonValue`] and frames compact
//! JSON text itself, leaving the escaping of string literals to
//! serde_json.

use vstd::prelude::*;

verus! {

/// A JSON value. Numbers are kept as the text serde_json writes for them;
/// object members keep the order in which they were read. Values read
/// from JSON text have unique object keys (`keys_unique`).
#[derive(Debug, PartialEq)]
pub enum JsonValue {
    Null,
    Bool(bool),
    Number(String),
    Str(String),
    Array(Vec<JsonValue>),
    Object(Vec<(String, JsonValue)>),
}

/// Lower-case hexadecimal digit for `d` in `0..16`.
pub open spec fn hex_digit(d: int) -> char {
    if d == 0 { '0' } else if d == 1 { '1' } else if d == 2 { '2' } else if d == 3 { '3' }
    else if d == 4 { '4' } else if d == 5 { '5' } else if d == 6 { '6' } else if d == 7 { '7' }
    else if d == 8 { '8' } else if d == 9 { '9' } else if d == 10 { 'a' } else if d == 11 { 'b' }
    else if d == 12 { 'c' } else if d == 13 { 'd' } else if d == 14 { 'e' } else { 'f' }
}

/// How serde_json writes one character inside a string literal.
pub open spec fn escape_char(c: char) -> Seq<char> {
    if c == '\u{22}' {
        seq!['\u{5c}', '\u{22}']
    } else if c == '\u{5c}' {
        seq!['\u{5c}', '\u{5c}']
    } else if c == '\u{8}' {
        seq!['\u{5c}', 'b']
    } else if c == '\u{c}' {
        seq!['\u{5c}', 'f']
    } else if c == '\n' {
        seq!['\u{5c}', 'n']
    } else if c == '\r' {
        seq!['\u{5c}', 'r']
    } else if c == '\t' {
        seq!['\u{5c}', 't']
    } else if (c as int) < 0x20 {
        seq!['\u{5c}', 'u', '0', '0', hex_digit((c as int) / 16), hex_digit((c as int) % 16)]
    } else {
        seq![c]
    }
}

pub open spec fn escape_str(s: Seq<char>) -> Seq<char>
    decreases s.len(),
{
    if s.len() == 0 {
        seq![]
    } else {
        escape_str(s.drop_last()) + escape_char(s.last())
    }
}

/// The JSON string literal serde_json writes for `s`.
pub open spec fn json_string_literal(s: Seq<char>) -> Seq<char> {
    seq!['\u{22}'] + escape_str(s) + seq!['\u{22}']
}

/// Compact JSON text of a value, as serde_json's `to_string` writes it.
pub open spec fn json_text(v: JsonValue) -> Seq<char>
    decreases v,
{
    match v {
        JsonValue::Null => seq!['n', 'u', 'l', 'l'],
        JsonValue::Bool(b) => if b {
            seq!['t', 'r', 'u', 'e']
        } else {
            seq!['f', 'a', 'l', 's', 'e']
        },
        JsonValue::Number(n) => n@,
        JsonValue::Str(s) => json_string_literal(s@),
        JsonValue::Array(items) => seq!['['] + json_items_text(items@) + seq![']'],
        JsonValue::Object(members) => seq!['{'] + json_members_text(members@) + seq!['}'],
    }
}

/// Comma-separated texts of array elements.
pub open spec fn json_items_text(items: Seq<JsonValue>) -> Seq<char>
    decreases items,
{
    if items.len() == 0 {
        seq![]
    } else if items.len() == 1 {
        json_text(items[0])
    } else {
        json_items_text(items.drop_last()) + seq![','] + json_text(items.last())
    }
}

/// Text of one object member: its quoted key, a colon and its value.
pub open spec fn json_member_text(member: (String, JsonValue)) -> Seq<char>
    decreases member,
{
    json_string_literal(member.0@) + seq![':'] + json_text(member.1)
}

/// Comma-separated texts of object members.
pub open spec fn json_members_text(members: Seq<(String, JsonValue)>) -> Seq<char>
    decreases members,
{
    if members.len() == 0 {
        seq![]
    } else if members.len() == 1 {
        json_member_text(members[0])
    } else {
        json_members_text(members.drop_last()) + seq![','] + json_member_text(members.last())
    }
}

} // verus!

verus! {

/// serde_json's `to_string` on a `&str`: the string literal with `"`,
/// `\` and the control characters below U+0020 escaped, every other
/// character written as it is. Writing into a `Vec` cannot fail, so the
/// error arm is never taken.
#[verifier::external_body]
fn json_quote(s: &str) -> (r: String)
    ensures
        r@ == json_string_literal(s@),
{
    serde_json::to_string(s).unwrap_or_default()
}

/// Compact JSON text of `v`.
#[verifier::loop_isolation(false)]
pub fn to_json_text(v: &JsonValue) -> (r: String)
    ensures
        r@ == json_text(*v),
    decreases v,
{
    match v {
        JsonValue::Null => {
            proof {
                reveal_strlit("null");
            }
            String::from_str("null")
        },
        JsonValue::Bool(b) => {
            if *b {
                proof {
                    reveal_strlit("true");
                }
                String::from_str("true")
            } else {
                proof {
                    reveal_strlit("false");
                }
                String::from_str("false")
            }
        },
        JsonValue::Number(n) => n.clone(),
        JsonValue::Str(s) => json_quote(s.as_str()),
        JsonValue::Array(items) => {
            proof {
                reveal_strlit("[");
                reveal_strlit("]");
                reveal_strlit(",");
            }
            let mut out = String::from_str("[");
            let mut i: usize = 0;
            while i < items.len()
                invariant
                    i <= items@.len(),
                    out@ == seq!['['] + json_items_text(items@.take(i as int)),
                decreases items@.len() - i,
            {
                proof {
                    assert(decreases_to!(*v => (*v)->Array_0));
                    assert(decreases_to!((*v)->Array_0 => (*v)->Array_0@));
                    assert(decreases_to!(items@ => items@[i as int]));
                }
                let t = to_json_text(&items[i]);
                if i > 0 {
                    out.append(",");
                }
                out.append(t.as_str());
                proof {
                    reveal_strlit(",");
                    let next = items@.take(i + 1);
                    assert(next.drop_last() =~= items@.take(i as int));
                    assert(next.last() == items@[i as int]);
                    if i == 0 {
                        assert(next[0] == items@[0]);
                    }
                    assert(out@ =~= seq!['['] + json_items_text(next));
                }
                i = i + 1;
            }
            proof {
                assert(items@.take(i as int) =~= items@);
            }
            out.append("]");
            out
        },
        JsonValue::Object(members) => {
            proof {
                reveal_strlit("{");
                reveal_strlit("}");
                reveal_strlit(",");
                reveal_strlit(":");
            }
            let mut out = String::from_str("{");
            let mut i: usize = 0;
            while i < members.len()
                invariant
                    i <= members@.len(),
                    out@ == seq!['{'] + json_members_text(members@.take(i as int)),
                decreases members@.len() - i,
            {
                proof {
                    assert(decreases_to!(*v => (*v)->Object_0));
                    assert(decreases_to!((*v)->Object_0 => (*v)->Object_0@));
                    assert(decreases_to!(members@ => members@[i as int]));
                    assert(decreases_to!(members@[i as int] => members@[i as int].1));
                }
                let key = json_quote(members[i].0.as_str());
                let t = to_json_text(&members[i].1);
                if i > 0 {
                    out.append(",");
                }
                out.append(key.as_str());
                out.append(":");
                out.append(t.as_str());
                proof {
                    reveal_strlit(",");
                    reveal_strlit(":");
                    let next = members@.take(i + 1);
                    assert(next.drop_last() =~= members@.take(i as int));
                    assert(next.last() == members@[i as int]);
                    assert(json_member_text(members@[i as int]) == json_string_literal(
                        members@[i as int].0@,
                    ) + seq![':'] + json_text(members@[i as int].1));
                    if i == 0 {
                        assert(next[0] == members@[0]);
                    }
                    assert(out@ =~= seq!['{'] + json_members_text(next));
                }
                i = i + 1;
            }
            proof {
                assert(members@.take(i as int) =~= members@);
            }
            out.append("}");
            out
        },
    }
}

} // verus!

verus! {

/// The value of the first member named `key`, if any.
pub open spec fn member_lookup(members: Seq<(String, JsonValue)>, key: Seq<char>) -> Option<
    JsonValue,
>
    decreases members.len(),
{
    if members.len() == 0 {
        None
    } else if members[0].0@ == key {
        Some(members[0].1)
    } else {
        member_lookup(members.drop_first(), key)
    }
}

/// The keys of a list of members, in order.
pub open spec fn member_keys(members: Seq<(String, JsonValue)>) -> Seq<Seq<char>> {
    members.map_values(|m: (String, JsonValue)| m.0@)
}

/// No object in `v`, at any depth, holds two members with one key. Values
/// read from JSON text have this form (a later duplicate replaces an
/// earlier one); the functions of this library take any value, and of
/// duplicate keys they read the first.
pub open spec fn keys_unique(v: JsonValue) -> bool
    decreases v,
{
    match v {
        JsonValue::Array(items) => forall|i: int|
            0 <= i < items@.len() ==> #[trigger] keys_unique(items@[i]),
        JsonValue::Object(members) => {
            &&& member_keys(members@).no_duplicates()
            &&& forall|i: int| 0 <= i < members@.len() ==> #[trigger] keys_unique(members@[i].1)
        },
        _ => true,
    }
}

/// Where keys are unique, the lookup of a key finds the one member with
/// that key, wherever it stands.
pub proof fn lemma_member_lookup_unique(members: Seq<(String, JsonValue)>, i: int)
    requires
        member_keys(members).no_duplicates(),
        0 <= i < members.len(),
    ensures
        member_lookup(members, members[i].0@) == Some(members[i].1),
    decreases members.len(),
{
    if i > 0 {
        let rest = members.drop_first();
        assert(member_keys(members)[0] != member_keys(members)[i]);
        assert(member_keys(rest) =~= member_keys(members).drop_first());
        assert(rest[i - 1] == members[i]);
        lemma_member_lookup_unique(rest, i - 1);
    }
}

/// The value of the first member of `members` named `key`.
pub fn object_get<'a>(members: &'a Vec<(String, JsonValue)>, key: &str) -> (r: Option<
    &'a JsonValue,
>)
    ensures
        r matches Some(v) ==> member_lookup(members@, key@) == Some(*v),
        r is None ==> member_lookup(members@, key@) is None,
{
    let wanted = String::from_str(key);
    let mut i: usize = 0;
    proof {
        assert(members@.skip(0) =~= members@);
    }
    while i < members.len()
        invariant
            i <= members@.len(),
            wanted@ == key@,
            member_lookup(members@, key@) == member_lookup(members@.skip(i as int), key@),
        decreases members@.len() - i,
    {
        proof {
            assert(members@.skip(i as int).drop_first() =~= members@.skip(i + 1));
        }
        if members[i].0 == wanted {
            proof {
                assert(members@.skip(i as int)[0] == members@[i as int]);
            }
            return Some(&members[i].1);
        }
        i = i + 1;
    }
    None
}

} // verus!
