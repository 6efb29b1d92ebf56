//! Stored settings.

use vstd::prelude::*;

verus! {

broadcast use vstd::string::group_string_axioms;

/// The text stored for a setting sent as a JSON value: the string itself,
/// or empty text for any value that is not a string.
pub fn setting_value(as_text: Option<&str>) -> (r: String)
    ensures
        as_text matches Some(t) ==> r@ == t@,
        as_text is None ==> r@.len() == 0,
{
    match as_text {
        Some(t) => t.to_string(),
        None => String::new(),
    }
}

} // verus!
