//! Rows of the card table.
use vstd::prelude::*;

verus! {

/// A card as the `scryfall_cards` table caches it.
#[derive(Debug)]
pub struct ScryfallCard {
    pub scryfall_id: String,
    pub name: String,
    pub set_code: String,
    pub set_name: String,
    pub collector_number: String,
    pub rarity: String,
    pub language: String,
    pub image_uri: Option<String>,
    pub cached_at: i64,
}

} // verus!
