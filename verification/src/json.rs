//! JSON text for tool-call errors: string escaping through `serde_json`, and
//! the `serde_json::Value` objects handed to callers.

use vstd::prelude::*;

use crate::digest::hex_digit;

verus! {

/// The escape that JSON needs for one character, or the character itself.
pub open spec fn json_escape(c: char) -> Seq<char> {
    if c == '"' {
        seq!['\\', '"']
    } else if c == '\\' {
        seq!['\\', '\\']
    } else if c == '\u{08}' {
        seq!['\\', 'b']
    } else if c == '\u{0C}' {
        seq!['\\', 'f']
    } else if c == '\n' {
        seq!['\\', 'n']
    } else if c == '\r' {
        seq!['\\', 'r']
    } else if c == '\t' {
        seq!['\\', 't']
    } else if (c as int) < 0x20 {
        seq!['\\', 'u', '0', '0', hex_digit((c as int) / 16), hex_digit((c as int) % 16)]
    } else {
        seq![c]
    }
}

pub open spec fn json_escaped(s: Seq<char>) -> Seq<char>
    decreases s.len(),
{
    if s.len() == 0 {
        Seq::empty()
    } else {
        json_escaped(s.drop_last()) + json_escape(s.last())
    }
}

/// A JSON string literal: the escaped text between double quotes.
pub open spec fn json_quoted(s: Seq<char>) -> Seq<char> {
    seq!['"'] + json_escaped(s) + seq!['"']
}

/// `serde_json::Value`, declared so that a payload can be handed back; its
/// contents stay opaque.
#[verifier::external_type_specification]
#[verifier::external_body]
pub struct ExJsonValue(serde_json::Value);

/// Whether a `serde_json::Value` is an object.
pub uninterp spec fn json_is_object(value: serde_json::Value) -> bool;

/// The keys of the members of a `serde_json::Value` that is an object;
/// empty for any other value.
pub uninterp spec fn json_object_keys(value: serde_json::Value) -> Set<Seq<char>>;

/// The string-valued members of a `serde_json::Value` that is an object, by
/// key; empty for any other value.
pub uninterp spec fn json_string_members(value: serde_json::Value) -> Map<Seq<char>, Seq<char>>;

/// The members that a list of key and text pairs makes, a later pair
/// replacing an earlier one with the same key.
pub open spec fn string_members_of(entries: Seq<(Seq<char>, Seq<char>)>) -> Map<Seq<char>, Seq<char>>
    decreases entries.len(),
{
    if entries.len() == 0 {
        Map::empty()
    } else {
        string_members_of(entries.drop_last()).insert(entries.last().0, entries.last().1)
    }
}

/// The keys of a list of key and text pairs.
pub open spec fn entry_keys(entries: Seq<(Seq<char>, Seq<char>)>) -> Set<Seq<char>>
    decreases entries.len(),
{
    if entries.len() == 0 {
        Set::empty()
    } else {
        entry_keys(entries.drop_last()).insert(entries.last().0)
    }
}

pub proof fn lemma_entry_keys_are_members(entries: Seq<(Seq<char>, Seq<char>)>)
    ensures
        string_members_of(entries).dom() == entry_keys(entries),
    decreases entries.len(),
{
    if entries.len() > 0 {
        lemma_entry_keys_are_members(entries.drop_last());
    }
    assert(string_members_of(entries).dom() =~= entry_keys(entries));
}

/// No key occurs twice.
pub open spec fn keys_distinct(entries: Seq<(Seq<char>, Seq<char>)>) -> bool {
    forall|i: int, j: int| 0 <= i < j < entries.len() ==> (#[trigger] entries[i]).0 != (#[trigger] entries[j]).0
}

/// Whether `a` comes before `b` in the order of `String`: character by
/// character, a proper prefix first.
pub open spec fn text_before(a: Seq<char>, b: Seq<char>) -> bool
    decreases a.len(),
{
    if a.len() == 0 {
        b.len() > 0
    } else if b.len() == 0 {
        false
    } else if a[0] != b[0] {
        (a[0] as int) < (b[0] as int)
    } else {
        text_before(a.drop_first(), b.drop_first())
    }
}

/// The keys of the pairs come in strictly increasing order.
pub open spec fn keys_ascending(entries: Seq<(Seq<char>, Seq<char>)>) -> bool {
    forall|i: int, j: int| 0 <= i < j < entries.len() ==> text_before((#[trigger] entries[i]).0, (#[trigger] entries[j]).0)
}

/// The members of a JSON object as compact text, each `"key":"value"`,
/// separated by commas.
pub open spec fn json_members(entries: Seq<(Seq<char>, Seq<char>)>) -> Seq<char>
    decreases entries.len(),
{
    if entries.len() == 0 {
        Seq::empty()
    } else if entries.len() == 1 {
        json_quoted(entries[0].0) + ":"@ + json_quoted(entries[0].1)
    } else {
        json_members(entries.drop_last()) + ","@ + json_quoted(entries.last().0) + ":"@
            + json_quoted(entries.last().1)
    }
}

/// Builds a `serde_json::Value::Object` whose members are the given keys
/// bound to `serde_json::Value::String`s, collecting the pairs into a
/// `serde_json::Map`. The result is an object whose keys are those of the
/// pairs; where no key repeats, its string members are exactly the pairs
/// given. Which of two pairs with one key is kept is not stated.
#[verifier::external_body]
pub(crate) fn json_string_object(entries: Vec<(String, String)>) -> (value: serde_json::Value)
    ensures
        json_is_object(value),
        json_object_keys(value) == entry_keys(entries@.map_values(|p: (String, String)| (p.0@, p.1@))),
        keys_distinct(entries@.map_values(|p: (String, String)| (p.0@, p.1@))) ==> json_string_members(value)
            == string_members_of(entries@.map_values(|p: (String, String)| (p.0@, p.1@))),
{
    serde_json::Value::Object(
        entries.into_iter().map(|(key, value)| (key, serde_json::Value::String(value))).collect(),
    )
}

/// Calls `ToString::to_string` on a `serde_json::Value`, whose `Display`
/// writes compact JSON. For an object whose members are all strings, that is
/// `{`, the members in the order of their keys (a `BTreeMap` walk), each as
/// the escaped key, `:` and the escaped text, separated by `,`, then `}`;
/// strings are escaped as `format_escaped_str` and its `ESCAPE` table do:
/// `"` and `\`, `\b \f \n \r \t`, and `\u00xx` with lower-case hex for
/// the other characters below U+0020. Nothing is stated of other values.
#[verifier::external_body]
pub(crate) fn json_text(value: &serde_json::Value) -> (text: String)
    ensures
        forall|entries: Seq<(Seq<char>, Seq<char>)>|
            json_is_object(*value) && json_object_keys(*value) == entry_keys(entries)
                && #[trigger] string_members_of(entries) == json_string_members(*value)
                && keys_ascending(entries) ==> text@ == "{"@ + json_members(entries) + "}"@,
{
    value.to_string()
}

} // verus!
