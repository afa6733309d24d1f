//! NBT values of `fastnbt`, carried through the chunk logic unread.

use vstd::prelude::*;
use fastnbt::Value;

verus! {

/// `fastnbt::Value`, one NBT tag of any kind. Its contents are never inspected
/// by the library; it is only carried and copied.
#[verifier::external_type_specification]
#[verifier::external_body]
pub struct ExNbtValue(Value);

/// The derived `Clone` of `fastnbt::Value`: a field-by-field copy, so the copy
/// is the same value.
pub assume_specification[ <Value as Clone>::clone ](value: &Value) -> (copy: Value)
    ensures
        copy == *value,
;

/// `format!("{:?}")` on a `fastnbt::Value`: its `Debug` text, by which block
/// properties are told apart. A compound's text lists its entries in the order
/// its `HashMap` is walked, so nothing is claimed of the text.
#[verifier::external_body]
pub fn debug_text(value: &Value) -> String {
    format!("{value:?}")
}

} // verus!
