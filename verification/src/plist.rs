//! The part of a property list that job definitions are read from.
//!
//! A plist is held as plain values: the kinds of value the job logic looks
//! at, and `Other` for data, dates, reals and UIDs, which it never reads.

use vstd::prelude::*;

use crate::text::{chars_of, eq_chars};

verus! {

/// One value of a property list.
#[derive(Debug)]
pub enum PlistValue {
    Boolean(bool),
    /// An integer; `None` when it does not fit in `i64`.
    Integer(Option<i64>),
    String(String),
    Array(Vec<PlistValue>),
    Dictionary(Dictionary),
    /// Data, a date, a real number or a UID.
    Other,
}

/// A plist dictionary: its keys and values in file order.
#[derive(Debug)]
pub struct Dictionary {
    pub entries: Vec<(String, PlistValue)>,
}

/// The value stored under `key`: the first entry with that key.
pub open spec fn dict_get(entries: Seq<(String, PlistValue)>, key: Seq<char>) -> Option<PlistValue>
    decreases entries.len(),
{
    if entries.len() == 0 {
        None
    } else if entries[0].0@ == key {
        Some(entries[0].1)
    } else {
        dict_get(entries.drop_first(), key)
    }
}

/// The boolean under `key` (`get(key).and_then(as_boolean)`).
pub open spec fn key_bool(entries: Seq<(String, PlistValue)>, key: Seq<char>) -> Option<bool> {
    match dict_get(entries, key) {
        Some(PlistValue::Boolean(b)) => Some(b),
        _ => None,
    }
}

/// The signed integer under `key` (`get(key).and_then(as_signed_integer)`).
pub open spec fn key_int(entries: Seq<(String, PlistValue)>, key: Seq<char>) -> Option<i64> {
    match dict_get(entries, key) {
        Some(PlistValue::Integer(Some(i))) => Some(i),
        _ => None,
    }
}

/// The string under `key` (`get(key).and_then(as_string)`).
pub open spec fn key_string(entries: Seq<(String, PlistValue)>, key: Seq<char>) -> Option<Seq<char>> {
    match dict_get(entries, key) {
        Some(PlistValue::String(s)) => Some(s@),
        _ => None,
    }
}

/// The strings among `items`, in order (`filter_map(as_string)`).
pub open spec fn strings_in(items: Seq<PlistValue>) -> Seq<Seq<char>>
    decreases items.len(),
{
    if items.len() == 0 {
        Seq::<Seq<char>>::empty()
    } else {
        let rest = strings_in(items.drop_last());
        match items.last() {
            PlistValue::String(s) => rest.push(s@),
            _ => rest,
        }
    }
}

/// The strings of the array under `key`, or `None` when there is no array.
pub open spec fn key_strings(entries: Seq<(String, PlistValue)>, key: Seq<char>) -> Option<Seq<Seq<char>>> {
    match dict_get(entries, key) {
        Some(PlistValue::Array(a)) => Some(strings_in(a@)),
        _ => None,
    }
}

impl Dictionary {
    /// The value stored under `key`, if any.
    pub fn get(&self, key: &str) -> (r: Option<&PlistValue>)
        ensures
            match r {
                Some(v) => dict_get(self.entries@, key@) == Some(*v),
                None => dict_get(self.entries@, key@) is None,
            },
    {
        let k = chars_of(key);
        let n = self.entries.len();
        assert(self.entries@.subrange(0, n as int) =~= self.entries@);
        for i in 0..n
            invariant
                n == self.entries@.len(),
                k@ == key@,
                dict_get(self.entries@, key@) == dict_get(self.entries@.subrange(i as int, n as int), key@),
        {
            let ghost rest = self.entries@.subrange(i as int, n as int);
            assert(rest.drop_first() =~= self.entries@.subrange(i + 1, n as int));
            assert(rest[0] == self.entries@[i as int]);
            let name = chars_of(self.entries[i].0.as_str());
            if eq_chars(&name, &k) {
                return Some(&self.entries[i].1);
            }
        }
        assert(self.entries@.subrange(n as int, n as int).len() == 0);
        None
    }

    /// The boolean under `key`.
    pub fn get_bool(&self, key: &str) -> (r: Option<bool>)
        ensures
            r == key_bool(self.entries@, key@),
    {
        match self.get(key) {
            Some(PlistValue::Boolean(b)) => Some(*b),
            _ => None,
        }
    }

    /// The signed integer under `key`.
    pub fn get_int(&self, key: &str) -> (r: Option<i64>)
        ensures
            r == key_int(self.entries@, key@),
    {
        match self.get(key) {
            Some(PlistValue::Integer(Some(i))) => Some(*i),
            _ => None,
        }
    }

    /// A copy of the string under `key`.
    pub fn get_string(&self, key: &str) -> (r: Option<String>)
        ensures
            match r {
                Some(s) => key_string(self.entries@, key@) == Some(s@),
                None => key_string(self.entries@, key@) is None,
            },
    {
        match self.get(key) {
            Some(PlistValue::String(s)) => Some(s.clone()),
            _ => None,
        }
    }

    /// Copies of the strings in the array under `key`.
    pub fn get_strings(&self, key: &str) -> (r: Option<Vec<String>>)
        ensures
            match r {
                Some(v) => key_strings(self.entries@, key@) == Some(v@.map_values(|s: String| s@)),
                None => key_strings(self.entries@, key@) is None,
            },
    {
        match self.get(key) {
            Some(PlistValue::Array(items)) => Some(strings_of_items(items)),
            _ => None,
        }
    }
}

/// Copies of the strings among `items`, in order.
pub fn strings_of_items(items: &Vec<PlistValue>) -> (r: Vec<String>)
    ensures
        r@.map_values(|s: String| s@) == strings_in(items@),
{
    let mut out: Vec<String> = Vec::new();
    for i in 0..items.len()
        invariant
            out@.map_values(|s: String| s@) == strings_in(items@.take(i as int)),
    {
        assert(items@.take(i + 1).drop_last() =~= items@.take(i as int));
        assert(items@.take(i + 1).last() == items@[i as int]);
        let ghost before = out@;
        match &items[i] {
            PlistValue::String(s) => {
                out.push(s.clone());
                assert(out@.map_values(|s: String| s@) =~= before.map_values(|s: String| s@).push(s@));
            },
            _ => {},
        }
    }
    assert(items@.take(items.len() as int) =~= items@);
    out
}

// ---------------------------------------------------------------------------
// Reading a property list
// ---------------------------------------------------------------------------

/// The `plist` crate's value, which only passes through [`plist_value_of`].
#[verifier::external_type_specification]
#[verifier::external_body]
pub struct ExPlistValue(plist::Value);

/// What `plist::Value::from_reader` reads from `bytes`, as a [`PlistValue`]:
/// `None` when the crate reports an error.
pub uninterp spec fn plist_of_bytes(bytes: Seq<u8>) -> Option<PlistValue>;

/// Read a property list in any of its encodings (XML, binary or ASCII) with
/// `plist::Value::from_reader`.
///
/// Trusted: the result is [`plist_of_bytes`] of the bytes, so the same bytes
/// always read the same way; which bytes the crate accepts, and what it makes
/// of them, is left to the crate and not restated.
#[verifier::external_body]
pub(crate) fn parse_plist_bytes(bytes: &[u8]) -> (r: Option<PlistValue>)
    ensures
        r == plist_of_bytes(bytes@),
{
    plist::Value::from_reader(std::io::Cursor::new(bytes)).ok().map(plist_value_of)
}

/// A `plist::Value` as a [`PlistValue`], variant for variant: integers by
/// `Integer::as_signed`, and data, dates, reals and UIDs as `Other`.
#[verifier::external_body]
fn plist_value_of(v: plist::Value) -> PlistValue {
    match v {
        plist::Value::Boolean(b) => PlistValue::Boolean(b),
        plist::Value::Integer(i) => PlistValue::Integer(i.as_signed()),
        plist::Value::String(s) => PlistValue::String(s),
        plist::Value::Array(a) => PlistValue::Array(a.into_iter().map(plist_value_of).collect()),
        plist::Value::Dictionary(d) => PlistValue::Dictionary(
            Dictionary { entries: d.into_iter().map(|(k, v)| (k, plist_value_of(v))).collect() },
        ),
        _ => PlistValue::Other,
    }
}

} // verus!
