//! Sealed product inventory.
use vstd::prelude::*;

verus! {

/// The change of a sealed product's quantity: positive adds, negative
/// removes.
pub struct AdjustQtyForm {
    pub delta: i64,
}

/// A text field of the sealed-product form, or its default when missing.
pub fn text_or(v: &Option<String>, default: &str) -> (res: String)
    ensures
        res@ == match v {
            Some(s) => s@,
            None => default@,
        },
{
    match v {
        Some(s) => s.clone(),
        None => default.to_owned(),
    }
}

/// The language of a new sealed product: English unless the form says.
pub fn sealed_language(language: &Option<String>) -> (res: String)
    ensures
        res@ == match language {
            Some(s) => s@,
            None => "en"@,
        },
{
    text_or(language, "en")
}

} // verus!
