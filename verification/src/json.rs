//! JSON values as the bridge inspects them: the checks on payloads and the
//! dispatch of maestro messages read keys and strings out of a parsed value.
use vstd::prelude::*;

use crate::text::str_eq;

verus! {

broadcast use vstd::std_specs::vec::group_vec_axioms;

/// A parsed JSON value. Numbers keep their text; an object keeps its entries
/// in the order the parser gave them (keys are distinct).
#[derive(Debug)]
pub enum JsonValue {
    Null,
    Bool(bool),
    Number(String),
    Str(String),
    Array(Vec<JsonValue>),
    Object(Vec<(String, JsonValue)>),
}

/// The position of the first entry with key `key`, or -1.
pub open spec fn key_index(entries: Seq<(String, JsonValue)>, key: Seq<char>) -> int
    decreases entries.len(),
{
    if entries.len() == 0 {
        -1
    } else if entries[0].0@ == key {
        0
    } else {
        let r = key_index(entries.drop_first(), key);
        if r < 0 {
            -1
        } else {
            r + 1
        }
    }
}

pub proof fn lemma_key_index(entries: Seq<(String, JsonValue)>, key: Seq<char>)
    ensures
        -1 <= key_index(entries, key) < entries.len(),
        key_index(entries, key) >= 0 ==> entries[key_index(entries, key)].0@ == key,
        key_index(entries, key) >= 0 ==> forall|j: int|
            0 <= j < key_index(entries, key) ==> (#[trigger] entries[j]).0@ != key,
        key_index(entries, key) == -1 ==> forall|j: int|
            0 <= j < entries.len() ==> (#[trigger] entries[j]).0@ != key,
    decreases entries.len(),
{
    if entries.len() > 0 && entries[0].0@ != key {
        lemma_key_index(entries.drop_first(), key);
        assert forall|j: int| 0 < j < entries.len() implies entries[j] == entries.drop_first()[j - 1] by {}
    }
}

/// The value under `key` in `v`, when `v` is an object that has it.
pub open spec fn get_spec(v: JsonValue, key: Seq<char>) -> Option<JsonValue> {
    match v {
        JsonValue::Object(entries) => {
            let k = key_index(entries@, key);
            if k >= 0 {
                Some(entries@[k].1)
            } else {
                None
            }
        },
        _ => None,
    }
}

impl JsonValue {
    /// The position of `key` among the entries of an object.
    pub fn key_position(entries: &Vec<(String, JsonValue)>, key: &str) -> (r: Option<usize>)
        ensures
            r matches Some(i) ==> i == key_index(entries@, key@) && i < entries@.len(),
            r is None ==> key_index(entries@, key@) == -1,
    {
        let mut i: usize = 0;
        while i < entries.len()
            invariant
                i <= entries@.len(),
                forall|j: int| 0 <= j < i ==> (#[trigger] entries@[j]).0@ != key@,
            decreases entries.len() - i,
        {
            if str_eq(entries[i].0.as_str(), key) {
                proof {
                    lemma_key_index(entries@, key@);
                    let k = key_index(entries@, key@);
                    if k != i {
                        if k < i {
                            assert(entries@[k].0@ != key@);
                        } else {
                            assert(entries@[i as int].0@ != key@);
                        }
                    }
                }
                return Some(i);
            }
            i = i + 1;
        }
        proof {
            lemma_key_index(entries@, key@);
            if key_index(entries@, key@) >= 0 {
                assert(entries@[key_index(entries@, key@)].0@ == key@);
            }
        }
        None
    }

    /// The value under `key`, as `serde_json::Value::get` with a string key.
    pub fn get(&self, key: &str) -> (r: Option<&JsonValue>)
        ensures
            r matches Some(x) ==> get_spec(*self, key@) == Some(*x),
            r is None ==> get_spec(*self, key@) is None,
    {
        match self {
            JsonValue::Object(entries) => match JsonValue::key_position(entries, key) {
                Some(i) => Some(&entries[i].1),
                None => None,
            },
            _ => None,
        }
    }

    /// Whether `self` is an object with an entry under `key`.
    pub fn has_key(&self, key: &str) -> (b: bool)
        ensures
            b == (get_spec(*self, key@) is Some),
    {
        self.get(key).is_some()
    }

    /// The number of entries, when `self` is an object.
    pub fn object_len(&self) -> (r: Option<usize>)
        ensures
            self matches JsonValue::Object(entries) ==> (r matches Some(n) && n == entries@.len()),
            !(self is Object) ==> r is None,
    {
        match self {
            JsonValue::Object(entries) => Some(entries.len()),
            _ => None,
        }
    }

    /// The string, when `self` is one.
    pub fn as_str(&self) -> (r: Option<&str>)
        ensures
            self matches JsonValue::Str(s) ==> (r matches Some(x) && x@ == s@),
            !(self is Str) ==> r is None,
    {
        match self {
            JsonValue::Str(s) => Some(s.as_str()),
            _ => None,
        }
    }
}

/// The first identity field found in `v`: an object naming `sender` (checked
/// first) or `auth_token` answers with that key; otherwise its values, and the
/// items of an array, are searched in order.
pub open spec fn forbidden_field_spec(v: JsonValue) -> Option<Seq<char>>
    decreases v, 0int,
{
    match v {
        JsonValue::Object(entries) => if key_index(entries@, "sender"@) >= 0 {
            Some("sender"@)
        } else if key_index(entries@, "auth_token"@) >= 0 {
            Some("auth_token"@)
        } else {
            forbidden_in_entries(entries, 0)
        },
        JsonValue::Array(items) => forbidden_in_items(items, 0),
        _ => None,
    }
}

/// The first identity field found among the values of `entries` from `i` on.
pub open spec fn forbidden_in_entries(entries: Vec<(String, JsonValue)>, i: int) -> Option<Seq<char>>
    decreases entries, entries@.len() - i,
{
    if 0 <= i < entries@.len() {
        proof {
            assert(decreases_to!(entries => entries[i]));
        }
        match forbidden_field_spec(entries[i].1) {
            Some(f) => Some(f),
            None => forbidden_in_entries(entries, i + 1),
        }
    } else {
        None
    }
}

/// The first identity field found among `items` from `i` on.
pub open spec fn forbidden_in_items(items: Vec<JsonValue>, i: int) -> Option<Seq<char>>
    decreases items, items@.len() - i,
{
    if 0 <= i < items@.len() {
        proof {
            assert(decreases_to!(items => items[i]));
        }
        match forbidden_field_spec(items[i]) {
            Some(f) => Some(f),
            None => forbidden_in_items(items, i + 1),
        }
    } else {
        None
    }
}

/// Searches `v` for a field that would let a peer claim an identity.
pub fn forbidden_identity_field(v: &JsonValue) -> (r: Option<&'static str>)
    ensures
        r matches Some(f) ==> forbidden_field_spec(*v) == Some(f@),
        r is None ==> forbidden_field_spec(*v) is None,
    decreases v, 2int,
{
    match v {
        JsonValue::Object(entries) => {
            if JsonValue::key_position(entries, "sender").is_some() {
                proof {
                    reveal_strlit("sender");
                }
                return Some("sender");
            }
            if JsonValue::key_position(entries, "auth_token").is_some() {
                proof {
                    reveal_strlit("auth_token");
                }
                return Some("auth_token");
            }
            forbidden_in_entries_exec(entries, 0)
        },
        JsonValue::Array(items) => forbidden_in_items_exec(items, 0),
        _ => None,
    }
}

fn forbidden_in_entries_exec(entries: &Vec<(String, JsonValue)>, i: usize) -> (r: Option<&'static str>)
    requires
        i <= entries@.len(),
    ensures
        r matches Some(f) ==> forbidden_in_entries(*entries, i as int) == Some(f@),
        r is None ==> forbidden_in_entries(*entries, i as int) is None,
    decreases entries, 1int, entries@.len() - i,
{
    if i < entries.len() {
        proof {
            assert(decreases_to!(entries => entries[i as int]));
        }
        match forbidden_identity_field(&entries[i].1) {
            Some(f) => Some(f),
            None => forbidden_in_entries_exec(entries, i + 1),
        }
    } else {
        None
    }
}

fn forbidden_in_items_exec(items: &Vec<JsonValue>, i: usize) -> (r: Option<&'static str>)
    requires
        i <= items@.len(),
    ensures
        r matches Some(f) ==> forbidden_in_items(*items, i as int) == Some(f@),
        r is None ==> forbidden_in_items(*items, i as int) is None,
    decreases items, 1int, items@.len() - i,
{
    if i < items.len() {
        proof {
            assert(decreases_to!(items => items[i as int]));
        }
        match forbidden_identity_field(&items[i]) {
            Some(f) => Some(f),
            None => forbidden_in_items_exec(items, i + 1),
        }
    } else {
        None
    }
}

proof fn lemma_found_in_entries(entries: Vec<(String, JsonValue)>, i: int, k: int)
    requires
        0 <= i <= k < entries@.len(),
        forbidden_field_spec(entries@[k].1) is Some,
    ensures
        forbidden_in_entries(entries, i) is Some,
    decreases k - i,
{
    if i < k {
        lemma_found_in_entries(entries, i + 1, k);
    }
}

proof fn lemma_found_in_items(items: Vec<JsonValue>, i: int, k: int)
    requires
        0 <= i <= k < items@.len(),
        forbidden_field_spec(items@[k]) is Some,
    ensures
        forbidden_in_items(items, i) is Some,
    decreases k - i,
{
    if i < k {
        lemma_found_in_items(items, i + 1, k);
    }
}

/// An identity field is found at any depth: a value holding, under any key
/// or at any position, a value with an identity field has one too.
pub proof fn lemma_forbidden_found_at_any_depth(v: JsonValue)
    ensures
        v matches JsonValue::Object(entries) ==> forall|k: int|
            0 <= k < entries@.len() && (#[trigger] forbidden_field_spec(entries@[k].1)) is Some
                ==> forbidden_field_spec(v) is Some,
        v matches JsonValue::Array(items) ==> forall|k: int|
            0 <= k < items@.len() && (#[trigger] forbidden_field_spec(items@[k])) is Some
                ==> forbidden_field_spec(v) is Some,
{
    match v {
        JsonValue::Object(entries) => {
            assert forall|k: int|
                0 <= k < entries@.len() && (#[trigger] forbidden_field_spec(entries@[k].1)) is Some
                    implies forbidden_field_spec(v) is Some by {
                lemma_found_in_entries(entries, 0, k);
            }
        },
        JsonValue::Array(items) => {
            assert forall|k: int|
                0 <= k < items@.len() && (#[trigger] forbidden_field_spec(items@[k])) is Some
                    implies forbidden_field_spec(v) is Some by {
                lemma_found_in_items(items, 0, k);
            }
        },
        _ => {},
    }
}

// ---------------------------------------------------------------------------
// Parsing text
// ---------------------------------------------------------------------------

#[verifier::external_type_specification]
#[verifier::external_body]
pub struct ExSerdeJsonValue(serde_json::Value);

/// The value `serde_json::from_str::<serde_json::Value>` parses from `s`,
/// or `None` where it reports an error.
pub uninterp spec fn json_parse(s: Seq<char>) -> Option<JsonValue>;

/// Converts a `serde_json::Value` into the library's value, one for one:
/// numbers by their text, object entries in the parser's order.
#[verifier::external_body]
fn json_of(v: &serde_json::Value) -> JsonValue {
    match v {
        serde_json::Value::Null => JsonValue::Null,
        serde_json::Value::Bool(b) => JsonValue::Bool(*b),
        serde_json::Value::Number(n) => JsonValue::Number(n.to_string()),
        serde_json::Value::String(s) => JsonValue::Str(s.clone()),
        serde_json::Value::Array(items) => JsonValue::Array(items.iter().map(json_of).collect()),
        serde_json::Value::Object(map) => {
            JsonValue::Object(map.iter().map(|(k, v)| (k.clone(), json_of(v))).collect())
        },
    }
}

/// Calls `serde_json::from_str::<serde_json::Value>` on `s`. The contract
/// claims the parsed value is `json_parse` of the text, and that an error
/// (given as its message) comes exactly when `json_parse` has no value; the
/// message itself is not described.
#[verifier::external_body]
pub(crate) fn parse_json(s: &str) -> (r: Result<JsonValue, String>)
    ensures
        r matches Ok(v) ==> json_parse(s@) == Some(v),
        r is Err ==> json_parse(s@) is None,
{
    serde_json::from_str::<serde_json::Value>(s).map(|v| json_of(&v)).map_err(|e| e.to_string())
}

} // verus!
