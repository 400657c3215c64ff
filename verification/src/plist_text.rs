//! Text of an archived attributed string: the plain string held in a
//! decoded property list, found under the keys that attributed strings use,
//! or as the first real string of an array.

use vstd::prelude::*;

use crate::export_messages::{extract_text_fallback, text_fallback};

verus! {

/// A decoded property-list value, as far as the text search reads it.
#[derive(Debug)]
pub enum PlistValue {
    String(String),
    Dictionary(Vec<(String, PlistValue)>),
    Array(Vec<PlistValue>),
    Other,
}

/// Whether a string is text rather than archive structure: not empty, and
/// not starting with `NS` or `__k`.
pub open spec fn is_text(s: Seq<char>) -> bool {
    &&& s.len() > 0
    &&& !(s.len() >= 2 && s[0] == 'N' && s[1] == 'S')
    &&& !(s.len() >= 3 && s[0] == '_' && s[1] == '_' && s[2] == 'k')
}

/// The keys an attributed string keeps its string under, in the order they
/// are tried.
pub open spec fn string_key(i: int) -> Seq<char> {
    if i == 0 {
        seq!['N', 'S', 'S', 't', 'r', 'i', 'n', 'g']
    } else if i == 1 {
        seq!['N', 'S', '.', 's', 't', 'r', 'i', 'n', 'g']
    } else {
        seq!['s', 't', 'r', 'i', 'n', 'g']
    }
}

/// The string a value holds: a string itself; in a dictionary, the string
/// found under the first of the string keys whose value holds one; in an
/// array, the first string found in an item that is text.
pub open spec fn string_of(v: PlistValue) -> Option<Seq<char>>
    decreases v, 0int,
{
    match v {
        PlistValue::String(s) => Some(s@),
        PlistValue::Dictionary(entries) => keyed_string(entries@, 0),
        PlistValue::Array(items) => first_text(items@),
        PlistValue::Other => None,
    }
}

/// The string under the first of the string keys from number `k` on whose
/// value holds one.
pub open spec fn keyed_string(entries: Seq<(String, PlistValue)>, k: int) -> Option<Seq<char>>
    decreases entries, 3 - k,
{
    if k >= 3 || k < 0 {
        None
    } else {
        match lookup_string(entries, string_key(k)) {
            Some(s) => Some(s),
            None => keyed_string(entries, k + 1),
        }
    }
}

/// The string held by the value of the first entry with key `key`.
pub open spec fn lookup_string(entries: Seq<(String, PlistValue)>, key: Seq<char>) -> Option<Seq<char>>
    decreases entries, 0int,
{
    if entries.len() == 0 {
        None
    } else if entries[0].0@ == key {
        string_of(entries[0].1)
    } else {
        lookup_string(entries.drop_first(), key)
    }
}

/// The first string found in an item that is text.
pub open spec fn first_text(items: Seq<PlistValue>) -> Option<Seq<char>>
    decreases items, 0int,
{
    if items.len() == 0 {
        None
    } else {
        match string_of(items[0]) {
            Some(s) => if is_text(s) {
                Some(s)
            } else {
                first_text(items.drop_first())
            },
            None => first_text(items.drop_first()),
        }
    }
}

/// The characters of an optional string.
pub open spec fn opt_chars(r: Option<String>) -> Option<Seq<char>> {
    match r {
        Some(s) => Some(s@),
        None => None,
    }
}

/// The string a decoded value holds (see `string_of`).
pub fn extract_string_from_value(value: &PlistValue) -> (r: Option<String>)
    ensures
        opt_chars(r) == string_of(*value),
    decreases value, 0int, 0int,
{
    match value {
        PlistValue::String(s) => Some(String::from_str(s.as_str())),
        PlistValue::Dictionary(entries) => keyed_string_in(entries, 0),
        PlistValue::Array(items) => {
            assert(items@.skip(0) =~= items@);
            first_text_in(items, 0)
        },
        PlistValue::Other => None,
    }
}

/// The key number `k` of the string keys.
fn string_key_at(k: usize) -> (key: &'static str)
    requires
        k < 3,
    ensures
        key@ == string_key(k as int),
{
    if k == 0 {
        proof {
            reveal_strlit("NSString");
        }
        "NSString"
    } else if k == 1 {
        proof {
            reveal_strlit("NS.string");
        }
        "NS.string"
    } else {
        proof {
            reveal_strlit("string");
        }
        "string"
    }
}

/// The string under the first of the string keys from number `k` on.
fn keyed_string_in(entries: &Vec<(String, PlistValue)>, k: usize) -> (r: Option<String>)
    requires
        k <= 3,
    ensures
        opt_chars(r) == keyed_string(entries@, k as int),
    decreases entries, 1int, 3 - k,
{
    if k >= 3 {
        return None;
    }
    let key = string_key_at(k);
    let found = lookup_string_in(entries, key, 0);
    proof {
        assert(entries@.skip(0) =~= entries@);
    }
    match found {
        Some(s) => Some(s),
        None => keyed_string_in(entries, k + 1),
    }
}

/// The string held by the value of the first entry from number `i` on with
/// key `key`.
fn lookup_string_in(entries: &Vec<(String, PlistValue)>, key: &str, i: usize) -> (r: Option<String>)
    requires
        i <= entries@.len(),
    ensures
        opt_chars(r) == lookup_string(entries@.skip(i as int), key@),
    decreases entries, 0int, entries@.len() - i,
{
    if i >= entries.len() {
        return None;
    }
    proof {
        assert(entries@.skip(i as int)[0] == entries@[i as int]);
        assert(entries@.skip(i as int).drop_first() =~= entries@.skip(i + 1));
        assert(decreases_to!(entries => entries@));
        assert(decreases_to!(entries@ => entries@[i as int]));
        assert(decreases_to!(entries@[i as int] => entries@[i as int].1));
    }
    if crate::text::str_eq(entries[i].0.as_str(), key) {
        extract_string_from_value(&entries[i].1)
    } else {
        lookup_string_in(entries, key, i + 1)
    }
}

/// The first string found in an item from number `i` on that is text.
fn first_text_in(items: &Vec<PlistValue>, i: usize) -> (r: Option<String>)
    requires
        i <= items@.len(),
    ensures
        opt_chars(r) == first_text(items@.skip(i as int)),
    decreases items, 0int, items@.len() - i,
{
    if i >= items.len() {
        return None;
    }
    proof {
        assert(items@.skip(i as int)[0] == items@[i as int]);
        assert(items@.skip(i as int).drop_first() =~= items@.skip(i + 1));
        assert(decreases_to!(items => items@));
        assert(decreases_to!(items@ => items@[i as int]));
    }
    match extract_string_from_value(&items[i]) {
        Some(s) => {
            if is_text_str(s.as_str()) {
                Some(s)
            } else {
                first_text_in(items, i + 1)
            }
        },
        None => first_text_in(items, i + 1),
    }
}

/// Whether a string is text rather than archive structure.
pub fn is_text_str(s: &str) -> (r: bool)
    ensures
        r == is_text(s@),
{
    let n = s.unicode_len();
    if n == 0 {
        return false;
    }
    if n >= 2 && s.get_char(0) == 'N' && s.get_char(1) == 'S' {
        return false;
    }
    if n >= 3 && s.get_char(0) == '_' && s.get_char(1) == '_' && s.get_char(2) == 'k' {
        return false;
    }
    true
}

/// The null marker of an archive's object table.
pub open spec fn null_marker() -> Seq<char> {
    seq!['$', 'n', 'u', 'l', 'l']
}

/// The first object of an archive's object table that is a string of text
/// other than the null marker.
pub open spec fn first_object_text(objects: Seq<PlistValue>) -> Option<Seq<char>>
    decreases objects.len(),
{
    if objects.len() == 0 {
        None
    } else {
        match objects[0] {
            PlistValue::String(s) => if is_text(s@) && s@ != null_marker() {
                Some(s@)
            } else {
                first_object_text(objects.drop_first())
            },
            _ => first_object_text(objects.drop_first()),
        }
    }
}

/// The text of an archived attributed string, from its bytes, the value its
/// keyed-archive decoding gave (`None` when that decoding failed), and the
/// object table of its plain property-list decoding (`None` when there is
/// none). Empty bytes give empty text. A decoded archive gives the string it
/// holds, or empty text. Otherwise the first text object of the table is
/// taken, and failing that the longest printable run of the bytes.
pub open spec fn attributed_body_text(
    body: Seq<u8>,
    keyed: Option<PlistValue>,
    objects: Option<Vec<PlistValue>>,
) -> Seq<char> {
    if body.len() == 0 {
        Seq::empty()
    } else {
        match keyed {
            Some(v) => match string_of(v) {
                Some(s) => s,
                None => Seq::empty(),
            },
            None => match (match objects {
                Some(o) => first_object_text(o@),
                None => None,
            }) {
                Some(s) => s,
                None => text_fallback(body).map_values(|b: u8| b as char),
            },
        }
    }
}

/// Whether a string is the null marker.
fn is_null_marker(s: &str) -> (r: bool)
    ensures
        r == (s@ == null_marker()),
{
    proof {
        reveal_strlit("$null");
        assert("$null"@ =~= null_marker());
    }
    crate::text::str_eq(s, "$null")
}

/// The first text object of an archive's object table.
fn object_text(objects: &Vec<PlistValue>) -> (r: Option<String>)
    ensures
        opt_chars(r) == first_object_text(objects@),
{
    let mut i: usize = 0;
    assert(objects@.skip(0) =~= objects@);
    while i < objects.len()
        invariant
            i <= objects@.len(),
            first_object_text(objects@) == first_object_text(objects@.skip(i as int)),
        decreases objects@.len() - i,
    {
        assert(objects@.skip(i as int)[0] == objects@[i as int]);
        assert(objects@.skip(i as int).drop_first() =~= objects@.skip(i + 1));
        match &objects[i] {
            PlistValue::String(s) => {
                if is_text_str(s.as_str()) && !is_null_marker(s.as_str()) {
                    return Some(String::from_str(s.as_str()));
                }
            },
            _ => {},
        }
        i = i + 1;
    }
    None
}

/// The text of an archived attributed string (see `attributed_body_text`).
pub fn extract_text_from_attributed_body(
    attributed_body: &[u8],
    keyed: Option<PlistValue>,
    objects: Option<Vec<PlistValue>>,
) -> (s: String)
    ensures
        s@ == attributed_body_text(attributed_body@, keyed, objects),
{
    if attributed_body.len() == 0 {
        return String::new();
    }
    match keyed {
        Some(value) => match extract_string_from_value(&value) {
            Some(s) => s,
            None => String::new(),
        },
        None => {
            let found = match &objects {
                Some(o) => object_text(o),
                None => None,
            };
            match found {
                Some(s) => s,
                None => extract_text_fallback(attributed_body),
            }
        },
    }
}


/// The exported text of a message: its plain text when it has one, else the
/// text recovered from its attributed body (already extracted, when the
/// message has a body), else empty.
pub fn message_text(text: Option<String>, body_text: Option<String>) -> (s: String)
    ensures
        s@ == (match text {
            Some(t) => t@,
            None => match body_text {
                Some(b) => b@,
                None => Seq::<char>::empty(),
            },
        }),
{
    match text {
        Some(t) => t,
        None => match body_text {
            Some(b) => b,
            None => String::new(),
        },
    }
}

} // verus!
