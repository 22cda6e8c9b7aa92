//! MessagePack values, as the editor sends them: what the finder reads of
//! a value of the rmpv crate, which neovim-lib hands on.

use neovim_lib::Value;
use vstd::prelude::*;

verus! {

#[verifier::external_type_specification]
#[verifier::external_body]
pub struct ExValue(neovim_lib::Value);

/// The entries of a value that is a map, in their order; none for any
/// other value.
pub uninterp spec fn value_entries(value: Value) -> Option<Seq<(Value, Value)>>;

/// The items of a value that is an array, in their order; none for any
/// other value.
pub uninterp spec fn value_items(value: Value) -> Option<Seq<Value>>;

/// The characters of a value that is a string of valid UTF-8; none for any
/// other value.
pub uninterp spec fn value_text(value: Value) -> Option<Seq<char>>;

/// The number that a value holds, if the value is an integer from zero up
/// to the greatest `u64`; none for any other value.
pub uninterp spec fn value_u64(value: Value) -> Option<u64>;

/// `Value::as_map` of rmpv: the entries of a map, nothing for a value that
/// is no map.
#[verifier::external_body]
pub(crate) fn value_as_map(value: &Value) -> (entries: Option<&Vec<(Value, Value)>>)
    ensures
        entries is Some <==> value_entries(*value) is Some,
        entries matches Some(list) ==> value_entries(*value) == Some(list@),
{
    value.as_map()
}

/// `Value::as_array` of rmpv: the items of an array, nothing for a value
/// that is no array.
#[verifier::external_body]
pub(crate) fn value_as_array(value: &Value) -> (items: Option<&Vec<Value>>)
    ensures
        items is Some <==> value_items(*value) is Some,
        items matches Some(list) ==> value_items(*value) == Some(list@),
{
    value.as_array()
}

/// `Value::as_str` of rmpv: the text of a string of valid UTF-8, nothing
/// for any other value.
#[verifier::external_body]
pub(crate) fn value_as_str(value: &Value) -> (text: Option<&str>)
    ensures
        text is Some <==> value_text(*value) is Some,
        text matches Some(s) ==> value_text(*value) == Some(s@),
{
    value.as_str()
}

/// `Value::as_u64` of rmpv: the number of an integer that a `u64` can
/// hold, nothing for any other value.
#[verifier::external_body]
pub(crate) fn value_as_u64(value: &Value) -> (number: Option<u64>)
    ensures
        number == value_u64(*value),
{
    value.as_u64()
}

} // verus!
