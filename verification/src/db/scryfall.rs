//! Background hydration of cached cards from the Scryfall API.
use vstd::prelude::*;

verus! {

/// The image kept for a card: the `normal` size, or the `large` one when
/// Scryfall has no normal image.
pub fn preferred_image_uri(normal: Option<String>, large: Option<String>) -> (res: Option<String>)
    ensures
        res == match normal {
            Some(n) => Some(n),
            None => large,
        },
{
    match normal {
        Some(n) => Some(n),
        None => large,
    }
}

} // verus!
