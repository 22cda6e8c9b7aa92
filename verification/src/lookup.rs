//! Looking a key up in a MessagePack map.

use crate::value::{value_as_map, value_as_str, value_entries, value_text};
use neovim_lib::Value;
use vstd::prelude::*;

verus! {

/// Why a lookup found nothing.
#[derive(Debug, Clone, Copy, PartialEq, Eq, Structural)]
pub enum LookupError {
    /// The value is not a map.
    NotAMap,
    /// No key of the map is the string that was looked for.
    KeyNotFound,
}

/// Whether the key of the entry at `i` is the string `key`.
pub open spec fn key_is(entries: Seq<(Value, Value)>, i: int, key: Seq<char>) -> bool {
    value_text(entries[i].0) == Some(key)
}

/// Whether the entry at `at` is the first whose key is the string `key`.
pub open spec fn is_first_key(entries: Seq<(Value, Value)>, at: int, key: Seq<char>) -> bool {
    &&& 0 <= at < entries.len()
    &&& key_is(entries, at, key)
    &&& forall|i: int| 0 <= i < at ==> !key_is(entries, i, key)
}

/// Whether some key of `entries` is the string `key`.
pub open spec fn has_key(entries: Seq<(Value, Value)>, key: Seq<char>) -> bool {
    exists|at: int| #[trigger] is_first_key(entries, at, key)
}

/// The position of the first entry whose key is the string `key`, if
/// there is one.
pub open spec fn first_key(entries: Seq<(Value, Value)>, key: Seq<char>) -> int {
    choose|at: int| #[trigger] is_first_key(entries, at, key)
}

/// The value that the map `val` holds under the string `key`: that of the
/// first entry with this key.
pub open spec fn field_of(val: Value, key: Seq<char>) -> Result<Value, LookupError> {
    match value_entries(val) {
        None => Err(LookupError::NotAMap),
        Some(entries) => if has_key(entries, key) {
            Ok(entries[first_key(entries, key)].1)
        } else {
            Err(LookupError::KeyNotFound)
        },
    }
}

/// The position of the first entry of `entries` whose key is the string
/// `key`.
pub fn find_key(entries: &Vec<(Value, Value)>, key: &str) -> (found: Option<usize>)
    ensures
        found matches Some(at) ==> is_first_key(entries@, at as int, key@),
        found is None ==> forall|i: int| 0 <= i < entries@.len() ==> !key_is(entries@, i, key@),
{
    let wanted = key.to_owned();
    let mut i: usize = 0;
    while i < entries.len()
        invariant
            i <= entries@.len(),
            wanted@ == key@,
            forall|j: int| 0 <= j < i ==> !key_is(entries@, j, key@),
        decreases entries.len() - i,
    {
        let same = match value_as_str(&entries[i].0) {
            Some(text) => text.to_owned() == wanted,
            None => false,
        };
        if same {
            return Some(i);
        }
        i += 1;
    }
    None
}

/// The value that the map `val` holds under the string `key`. The lookup
/// fails if `val` is no map, and if no key of it is the string `key`.
pub fn lookup<'a>(val: &'a Value, key: &str) -> (found: Result<&'a Value, LookupError>)
    ensures
        found matches Ok(value) ==> field_of(*val, key@) == Ok::<Value, LookupError>(*value),
        found matches Err(error) ==> field_of(*val, key@) == Err::<Value, LookupError>(error),
{
    let entries = match value_as_map(val) {
        None => {
            return Err(LookupError::NotAMap);
        },
        Some(entries) => entries,
    };
    match find_key(entries, key) {
        Some(at) => {
            let value = &entries[at].1;
            proof {
                let first = first_key(entries@, key@);
                assert(is_first_key(entries@, at as int, key@));
                assert(is_first_key(entries@, first, key@));
                assert(first == at) by {
                    if first < at {
                        assert(!key_is(entries@, first, key@));
                    } else if at < first {
                        assert(!key_is(entries@, at as int, key@));
                    }
                }
            }
            Ok(value)
        },
        None => Err(LookupError::KeyNotFound),
    }
}

} // verus!
