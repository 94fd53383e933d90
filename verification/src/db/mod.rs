//! Collection storage helpers: CSV import bookkeeping, bulk data file
//! selection and random identifiers.
use vstd::prelude::*;
use rand::Rng;

pub mod import;
pub mod bulk;
pub mod scryfall;

verus! {

/// How many fresh random IDs are tried, one after another, before a
/// collision with stored IDs is given up on.
pub const ID_TRIES: u32 = 10;

/// What follows one try of a fresh random ID.
#[derive(Clone, Copy, Debug, PartialEq, Eq, Structural)]
pub enum RetryStep {
    /// The ID was free: use it.
    Use,
    /// It was taken: draw another.
    TryAgain,
    /// It was taken and every try is spent.
    GiveUp,
}

/// After the `tried`-th try of a fresh ID (counting from 1): use the ID
/// when it was free; otherwise draw another while fewer than [`ID_TRIES`]
/// have been tried, and give up after that.
pub fn after_id_try(tried: u32, free: bool) -> (res: RetryStep)
    ensures
        res == (if free {
            RetryStep::Use
        } else if tried < ID_TRIES {
            RetryStep::TryAgain
        } else {
            RetryStep::GiveUp
        }),
{
    if free {
        RetryStep::Use
    } else if tried < ID_TRIES {
        RetryStep::TryAgain
    } else {
        RetryStep::GiveUp
    }
}

/// The base62 alphabet of generated record IDs: digits, then lower-case,
/// then upper-case letters.
pub open spec fn base62_char(i: nat) -> char {
    if i < 10 {
        ((48 + i) as u32) as char
    } else if i < 36 {
        ((97 + (i - 10)) as u32) as char
    } else {
        ((65 + (i - 36)) as u32) as char
    }
}

/// Whether `c` is an ASCII letter or digit.
pub open spec fn is_ascii_alnum(c: char) -> bool {
    ('0' <= c && c <= '9') || ('a' <= c && c <= 'z') || ('A' <= c && c <= 'Z')
}

/// The character at position `i` of the base62 alphabet.
pub fn base62_at(i: usize) -> (c: char)
    requires
        i < 62,
    ensures
        c == base62_char(i as nat),
        is_ascii_alnum(c),
{
    let b: u8 = if i < 10 {
        48u8 + (i as u8)
    } else if i < 36 {
        97u8 + ((i - 10) as u8)
    } else {
        65u8 + ((i - 36) as u8)
    };
    let c: char = b as char;
    assert(c == base62_char(i as nat) && is_ascii_alnum(c)) by {
        assert((b as u32) as char == c);
    }
    c
}

/// The string spelled by the alphabet positions `idx`.
pub fn base62_from_indices(idx: &Vec<usize>) -> (res: String)
    requires
        forall|k: int| 0 <= k < idx.len() ==> #[trigger] idx[k] < 62,
    ensures
        res@.len() == idx@.len(),
        forall|k: int| 0 <= k < idx.len() ==> #[trigger] res@[k] == base62_char(idx[k] as nat),
{
    let mut res: String = String::new();
    let mut i: usize = 0;
    while i < idx.len()
        invariant
            i <= idx.len(),
            forall|k: int| 0 <= k < idx.len() ==> #[trigger] idx[k] < 62,
            res@.len() == i,
            forall|k: int| 0 <= k < i ==> #[trigger] res@[k] == base62_char(idx[k] as nat),
        decreases idx.len() - i,
    {
        let c: char = base62_at(idx[i]);
        crate::text::push_char(&mut res, c);
        i = i + 1;
    }
    res
}

/// `rand::thread_rng().gen_range(0..n)`: a uniformly drawn number below `n`.
#[verifier::external_body]
fn random_below(n: usize) -> (res: usize)
    requires
        n > 0,
    ensures
        res < n,
{
    rand::thread_rng().gen_range(0..n)
}

/// Generate a random base62 ID of the given length.
pub fn gen_base62(len: usize) -> (res: String)
    ensures
        res@.len() == len,
        exists|idx: Seq<usize>|
            idx.len() == len && (forall|k: int| 0 <= k < len ==> #[trigger] idx[k] < 62) && (forall|
                k: int,
            |
                0 <= k < len ==> #[trigger] res@[k] == base62_char(idx[k] as nat)),
        forall|k: int| 0 <= k < len ==> is_ascii_alnum(#[trigger] res@[k]),
{
    let mut idx: Vec<usize> = Vec::new();
    let mut i: usize = 0;
    while i < len
        invariant
            i <= len,
            idx.len() == i,
            forall|k: int| 0 <= k < i ==> #[trigger] idx[k] < 62,
        decreases len - i,
    {
        idx.push(random_below(62));
        i = i + 1;
    }
    let res: String = base62_from_indices(&idx);
    assert(forall|k: int| 0 <= k < len ==> #[trigger] res@[k] == base62_char(idx@[k] as nat));
    assert forall|k: int| 0 <= k < len implies is_ascii_alnum(#[trigger] res@[k]) by {
        let j: nat = idx[k] as nat;
        assert(res@[k] == base62_char(j));
        assert(((48 + j) as u32) as char as u32 == 48 + j);
        assert(((97 + (j - 10)) as u32) as char as u32 == 97 + (j - 10));
        assert(((65 + (j - 36)) as u32) as char as u32 == 65 + (j - 36));
    }
    res
}

} // verus!
