//! JSON values, as `serde_json` reads and writes them.
//!
//! A `serde_json::Value` is opaque here. It is described by its compact text,
//! which its `Display` writes and which tells any two values apart.

use crate::text;
use serde_json::Value;
use vstd::prelude::*;

verus! {

/// `serde_json::Value`, an opaque JSON value.
#[verifier::external_type_specification]
#[verifier::external_body]
pub struct ExValue(serde_json::Value);

/// `serde_json::Error`, an opaque parse error.
#[verifier::external_type_specification]
#[verifier::external_body]
pub struct ExError(serde_json::Error);

/// `serde_json::Map`, the members of a JSON object.
#[verifier::external_type_specification]
#[verifier::external_body]
#[verifier::reject_recursive_types(K)]
#[verifier::reject_recursive_types(V)]
pub struct ExMap<K, V>(serde_json::Map<K, V>);

/// The compact text that the `Display` of `value` writes.
pub uninterp spec fn json_text(value: serde_json::Value) -> Seq<char>;

/// The message that the `Display` of `error` writes.
pub uninterp spec fn json_error_text(error: serde_json::Error) -> Seq<char>;

/// What `serde_json::from_str` makes of `text`: the compact text of the value,
/// or the message of the error.
pub uninterp spec fn json_outcome(text: Seq<char>) -> Result<Seq<char>, Seq<char>>;

/// What `Value::get` finds under `key` in the value with compact text `text`.
pub uninterp spec fn json_member(text: Seq<char>, key: Seq<char>) -> Option<Seq<char>>;

/// What `Value::as_str` finds in the value with compact text `text`.
pub uninterp spec fn json_string(text: Seq<char>) -> Option<Seq<char>>;

/// How a character is written inside a JSON string.
pub open spec fn json_char(c: char) -> Seq<char> {
    if c == '"' {
        seq!['\\', '"']
    } else if c == '\\' {
        seq!['\\', '\\']
    } else if c == '\u{8}' {
        seq!['\\', 'b']
    } else if c == '\t' {
        seq!['\\', 't']
    } else if c == '\n' {
        seq!['\\', 'n']
    } else if c == '\u{c}' {
        seq!['\\', 'f']
    } else if c == '\r' {
        seq!['\\', 'r']
    } else if (c as nat) < 0x20 {
        seq!['\\', 'u', '0', '0', hex_digit(c as nat / 16), hex_digit(c as nat % 16)]
    } else {
        seq![c]
    }
}

/// The hexadecimal digit for `d`, where `d` is below sixteen.
pub open spec fn hex_digit(d: nat) -> char {
    if d < 10 {
        text::digit(d)
    } else {
        "abcdef"@[d - 10]
    }
}

/// The characters of `content`, as they are written inside a JSON string.
pub open spec fn json_chars(content: Seq<char>) -> Seq<char>
    decreases content.len(),
{
    if content.len() == 0 {
        Seq::empty()
    } else {
        json_chars(content.drop_last()) + json_char(content.last())
    }
}

/// The compact text of the JSON string that holds `content`.
pub open spec fn json_quoted(content: Seq<char>) -> Seq<char> {
    seq!['"'] + json_chars(content) + seq!['"']
}

/// Whether the text `a` is ordered before `b`: it begins `b`, or has the lesser
/// character where the two first differ.
pub open spec fn sorts_before(a: Seq<char>, b: Seq<char>) -> bool {
    exists|n: int|
        0 <= n <= a.len() && n < b.len() && #[trigger] a.take(n) == b.take(n) && (n == a.len()
            || a[n] < b[n])
}

/// Whether `keys` are the keys of `members`, in order.
pub open spec fn lists_keys(keys: Seq<Seq<char>>, members: Map<Seq<char>, Seq<char>>) -> bool {
    &&& forall|i: int, j: int|
        0 <= i < j < keys.len() ==> sorts_before(#[trigger] keys[i], #[trigger] keys[j])
    &&& forall|key: Seq<char>| #[trigger] members.contains_key(key) <==> keys.contains(key)
}

/// The members of a JSON object in the order of `keys`, as they are written.
pub open spec fn json_members(
    keys: Seq<Seq<char>>,
    members: Map<Seq<char>, Seq<char>>,
) -> Seq<char> {
    text::joined(
        keys.map_values(|key: Seq<char>| json_quoted(key) + seq![':'] + members[key]),
        seq![','],
    )
}

/// The compact text of the JSON object with these members, each given by its
/// compact text. The members are written in the order of their keys.
pub open spec fn json_object(members: Map<Seq<char>, Seq<char>>) -> Seq<char> {
    let keys = choose|keys: Seq<Seq<char>>| lists_keys(keys, members);
    seq!['{'] + json_members(keys, members) + seq!['}']
}

/// The members that `map` holds, each with its compact text.
pub uninterp spec fn map_members(map: serde_json::Map<String, serde_json::Value>) -> Map<
    Seq<char>,
    Seq<char>,
>;

/// The texts of an optional JSON value.
pub open spec fn optional_text(value: Option<&Value>) -> Option<Seq<char>> {
    match value {
        Some(v) => Some(json_text(*v)),
        None => None,
    }
}

/// Calls `serde_json::from_str`. What comes back depends on `text` alone.
#[verifier::external_body]
pub(crate) fn parse(text: &str) -> (r: Result<Value, serde_json::Error>)
    ensures
        match r {
            Ok(value) => json_outcome(text@) == Ok::<Seq<char>, Seq<char>>(json_text(value)),
            Err(error) => json_outcome(text@) == Err::<Seq<char>, Seq<char>>(
                json_error_text(error),
            ),
        },
{
    serde_json::from_str(text)
}

/// Calls the `Display` of `serde_json::Error`.
#[verifier::external_body]
pub(crate) fn error_message(error: &serde_json::Error) -> (r: String)
    ensures
        r@ == json_error_text(*error),
{
    error.to_string()
}

/// Calls `Value::get` with a string key.
#[verifier::external_body]
pub(crate) fn member<'a>(value: &'a Value, key: &str) -> (r: Option<&'a Value>)
    ensures
        optional_text(r) == json_member(json_text(*value), key@),
{
    value.get(key)
}

/// Calls `Value::as_str`.
#[verifier::external_body]
pub(crate) fn as_string(value: &Value) -> (r: Option<&str>)
    ensures
        match r {
            Some(content) => json_string(json_text(*value)) == Some(content@),
            None => json_string(json_text(*value)) is None,
        },
{
    value.as_str()
}

/// Calls the `Display` of `Value`, which writes the compact text.
#[verifier::external_body]
pub(crate) fn compact(value: &Value) -> (r: String)
    ensures
        r@ == json_text(*value),
{
    value.to_string()
}

/// Calls `Value::from` on a string: the JSON string that holds it. Its compact
/// text escapes quotation marks, backslashes and control characters, and nothing
/// else.
#[verifier::external_body]
pub(crate) fn string(content: &str) -> (r: Value)
    ensures
        json_text(r) == json_quoted(content@),
        json_string(json_text(r)) == Some(content@),
{
    Value::from(content)
}

/// The constant `Value::Null`, whose compact text is `null`.
#[verifier::external_body]
pub(crate) fn null() -> (r: Value)
    ensures
        json_text(r) == "null"@,
{
    Value::Null
}

/// Calls `serde_json::Map::new`: no members.
#[verifier::external_body]
pub(crate) fn no_members() -> (r: serde_json::Map<String, Value>)
    ensures
        (map_members(r) == Map::<Seq<char>, Seq<char>>::empty()),
{
    serde_json::Map::new()
}

/// Calls `serde_json::Map::insert`: `key` now stands for `value`.
#[verifier::external_body]
pub(crate) fn insert(map: &mut serde_json::Map<String, Value>, key: &str, value: Value)
    ensures
        map_members(*final(map)) == map_members(*old(map)).insert(key@, json_text(value)),
{
    map.insert(key.to_owned(), value);
}

/// Calls `Value::from` on a map: the JSON object with its members. `Value::get`
/// finds exactly those. Its compact text has them in the order of their keys,
/// which is that of the underlying `BTreeMap`.
#[verifier::external_body]
pub(crate) fn object(map: serde_json::Map<String, Value>) -> (r: Value)
    ensures
        json_text(r) == json_object(map_members(map)),
        forall|key: Seq<char>| #[trigger]
            json_member(json_text(r), key) == (if map_members(map).contains_key(key) {
                Some(map_members(map)[key])
            } else {
                None
            }),
{
    Value::from(map)
}

proof fn lemma_order_is_strict(a: Seq<char>, b: Seq<char>)
    requires
        sorts_before(a, b),
    ensures
        !sorts_before(b, a),
        a != b,
{
    let n = choose|n: int|
        0 <= n <= a.len() && n < b.len() && #[trigger] a.take(n) == b.take(n) && (n == a.len()
            || a[n] < b[n]);
    if sorts_before(b, a) {
        let m = choose|m: int|
            0 <= m <= b.len() && m < a.len() && #[trigger] b.take(m) == a.take(m) && (m == b.len()
                || b[m] < a[m]);
        if n < m {
            assert(b.take(m)[n] == a.take(m)[n]);
        } else if m < n {
            assert(a.take(n)[m] == b.take(n)[m]);
        }
        assert(false);
    }
}

proof fn lemma_same_keys(
    members: Map<Seq<char>, Seq<char>>,
    a: Seq<Seq<char>>,
    b: Seq<Seq<char>>,
    n: int,
)
    requires
        lists_keys(a, members),
        lists_keys(b, members),
        0 <= n <= a.len(),
    ensures
        n <= b.len(),
        forall|k: int| 0 <= k < n ==> a[k] == b[k],
    decreases n,
{
    if n > 0 {
        let k = n - 1;
        lemma_same_keys(members, a, b, k);
        assert(a.contains(a[k]));
        assert(members.contains_key(a[k]));
        let j = choose|j: int| 0 <= j < b.len() && b[j] == a[k];
        if j < k {
            lemma_order_is_strict(a[j], a[k]);
            assert(false);
        }
        if j > k {
            assert(b.contains(b[k]));
            assert(members.contains_key(b[k]));
            let i = choose|i: int| 0 <= i < a.len() && a[i] == b[k];
            lemma_order_is_strict(b[k], b[j]);
            if i < k {
                lemma_order_is_strict(b[i], b[k]);
            } else if i > k {
                lemma_order_is_strict(a[k], a[i]);
            }
            assert(false);
        }
    }
}

/// An object's keys have one order, so its text is determined by its members.
pub proof fn law_object_text(members: Map<Seq<char>, Seq<char>>, keys: Seq<Seq<char>>)
    requires
        lists_keys(keys, members),
    ensures
        json_object(members) == seq!['{'] + json_members(keys, members) + seq!['}'],
{
    let chosen = choose|keys: Seq<Seq<char>>| lists_keys(keys, members);
    lemma_same_keys(members, keys, chosen, keys.len() as int);
    lemma_same_keys(members, chosen, keys, chosen.len() as int);
    assert(keys =~= chosen);
}

/// Whether `c` is written as itself inside a JSON string.
pub open spec fn is_plain(c: char) -> bool {
    c != '"' && c != '\\' && c as nat >= 0x20
}

/// A text of plain characters is written as it is.
pub proof fn law_plain_text_is_kept(content: Seq<char>)
    requires
        forall|k: int| 0 <= k < content.len() ==> is_plain(#[trigger] content[k]),
    ensures
        json_chars(content) == content,
    decreases content.len(),
{
    if content.len() > 0 {
        law_plain_text_is_kept(content.drop_last());
        assert(json_chars(content) =~= content);
    }
}

/// A JSON string is written without a line break, whatever it holds.
pub proof fn law_string_is_one_line(content: Seq<char>)
    ensures
        !json_quoted(content).contains('\n'),
{
    lemma_chars_are_one_line(content);
}

proof fn lemma_chars_are_one_line(content: Seq<char>)
    ensures
        !json_chars(content).contains('\n'),
    decreases content.len(),
{
    if content.len() > 0 {
        reveal_strlit("abcdef");
        lemma_chars_are_one_line(content.drop_last());
        assert(!json_char(content.last()).contains('\n'));
        lemma_concat_is_one_line(json_chars(content.drop_last()), json_char(content.last()));
    }
}

/// Texts without a line break have none together.
pub(crate) proof fn lemma_concat_is_one_line(a: Seq<char>, b: Seq<char>)
    requires
        !a.contains('\n'),
        !b.contains('\n'),
    ensures
        !(a + b).contains('\n'),
{
    if (a + b).contains('\n') {
        let k = choose|k: int| 0 <= k < (a + b).len() && (a + b)[k] == '\n';
        if k < a.len() {
            assert(a[k] == '\n');
        } else {
            assert(b[k - a.len()] == '\n');
        }
    }
}

} // verus!
