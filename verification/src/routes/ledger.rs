//! The ledger of expenses and revenue. The amounts are floating point
//! and are summed by the server; the library keeps the form handling.
use vstd::prelude::*;

verus! {

/// The optional notes of a form: an empty field stores no notes.
pub open spec fn stored_notes_spec(notes: Option<String>) -> Option<Seq<char>> {
    match notes {
        Some(n) => if n@.len() > 0 { Some(n@) } else { None },
        None => None,
    }
}

/// The notes to store for a ledger entry (or a sealed product).
pub fn stored_notes(notes: Option<String>) -> (res: Option<String>)
    ensures
        match res {
            Some(n) => stored_notes_spec(notes) == Some(n@),
            None => stored_notes_spec(notes) is None,
        },
{
    match notes {
        Some(n) => {
            if n.as_str().unicode_len() > 0 {
                Some(n)
            } else {
                None
            }
        },
        None => None,
    }
}

} // verus!
