//! The label pages: the pool of pre-printed UIDs, how many labels a
//! request generates or prints, and the brand line on the sheet.
use vstd::prelude::*;
use crate::db::is_ascii_alnum;

verus! {

#[verifier::external_type_specification]
#[verifier::external_body]
pub struct ExUuid(uuid::Uuid);

/// The form that asks for more UIDs.
pub struct GenerateForm {
    pub count: Option<i64>,
}

/// The query of the label sheet.
pub struct PrintQuery {
    pub brand: Option<String>,
    pub count: Option<i64>,
}

/// `v.clamp(lo, hi)`.
pub open spec fn clamp_spec(v: i64, lo: i64, hi: i64) -> i64 {
    if v < lo {
        lo
    } else if v > hi {
        hi
    } else {
        v
    }
}

fn clamp(v: i64, lo: i64, hi: i64) -> (res: i64)
    requires
        lo <= hi,
    ensures
        res == clamp_spec(v, lo, hi),
{
    if v < lo {
        lo
    } else if v > hi {
        hi
    } else {
        v
    }
}

/// How many UIDs one request generates: 80 unless the form says,
/// and always from 1 to 800.
pub fn generate_count(count: Option<i64>) -> (res: i64)
    ensures
        res == clamp_spec(
            match count {
                Some(c) => c,
                None => 80,
            },
            1,
            800,
        ),
        1 <= res <= 800,
{
    let c: i64 = match count {
        Some(c) => c,
        None => 80,
    };
    clamp(c, 1, 800)
}

/// How many labels one sheet prints: 80 unless the query says, and
/// always from 1 to 80 (one Avery 8167 sheet).
pub fn print_count(count: Option<i64>) -> (res: i64)
    ensures
        res == clamp_spec(
            match count {
                Some(c) => c,
                None => 80,
            },
            1,
            80,
        ),
        1 <= res <= 80,
{
    let c: i64 = match count {
        Some(c) => c,
        None => 80,
    };
    clamp(c, 1, 80)
}

/// The brand line printed on the labels.
pub open spec fn label_brand_spec(brand: Option<String>) -> Seq<char> {
    match brand {
        Some(b) => if b@.len() > 0 { b@ } else { "Direwolf Card Vault"@ },
        None => "Direwolf Card Vault"@,
    }
}

/// The brand of the sheet: the query's, unless missing or empty.
pub fn label_brand(brand: Option<String>) -> (res: String)
    ensures
        res@ == label_brand_spec(brand),
{
    match brand {
        Some(b) => {
            if b.as_str().unicode_len() > 0 {
                b
            } else {
                "Direwolf Card Vault".to_owned()
            }
        },
        None => "Direwolf Card Vault".to_owned(),
    }
}

// ───────────────────────────── UIDs ─────────────────────────────────────────

/// The alphabet of UIDs: digits, then upper-case, then lower-case letters.
pub open spec fn uid_char(i: nat) -> char {
    if i < 10 {
        ((48 + i) as u32) as char
    } else if i < 36 {
        ((65 + (i - 10)) as u32) as char
    } else {
        ((97 + (i - 36)) as u32) as char
    }
}

/// The length of a UID.
pub open spec fn uid_len() -> nat {
    6
}

/// The UID spelled by the first six of `bytes`: each byte picks the
/// character at its value modulo 62.
pub open spec fn uid_from_bytes_spec(bytes: Seq<u8>) -> Seq<char> {
    Seq::new(uid_len(), |k: int| uid_char((bytes[k] % 62) as nat))
}

/// Spells a UID from random bytes.
pub fn uid_from_bytes(bytes: &Vec<u8>) -> (res: String)
    requires
        bytes.len() >= 6,
    ensures
        res@ == uid_from_bytes_spec(bytes@),
        forall|k: int| 0 <= k < res@.len() ==> is_ascii_alnum(#[trigger] res@[k]),
{
    let mut res: String = String::new();
    let mut i: usize = 0;
    while i < 6
        invariant
            i <= 6,
            bytes.len() >= 6,
            res@ =~= uid_from_bytes_spec(bytes@).subrange(0, i as int),
            forall|k: int| 0 <= k < i ==> is_ascii_alnum(#[trigger] res@[k]),
        decreases 6 - i,
    {
        let v: u8 = bytes[i] % 62;
        let b: u8 = if v < 10 {
            48u8 + v
        } else if v < 36 {
            65u8 + (v - 10)
        } else {
            97u8 + (v - 36)
        };
        let c: char = b as char;
        assert(c == uid_char(v as nat) && is_ascii_alnum(c)) by {
            assert((b as u32) as char == c);
        }
        crate::text::push_char(&mut res, c);
        i = i + 1;
    }
    res
}

/// `Uuid::new_v4`: a random version-4 UUID. Nothing is claimed of it.
#[verifier::external_body]
fn new_uuid_v4() -> uuid::Uuid {
    uuid::Uuid::new_v4()
}

/// `Uuid::as_bytes`: the sixteen bytes of a UUID.
#[verifier::external_body]
fn uuid_bytes(id: &uuid::Uuid) -> (res: Vec<u8>)
    ensures
        res.len() == 16,
{
    id.as_bytes().to_vec()
}

/// A fresh random UID for the label pool: six characters, each a digit
/// or an ASCII letter, picked by the first bytes of a random UUID.
pub fn gen_uid() -> (res: String)
    ensures
        exists|b: Seq<u8>| b.len() == 16 && res@ == #[trigger] uid_from_bytes_spec(b),
        res@.len() == uid_len(),
        forall|k: int| 0 <= k < res@.len() ==> is_ascii_alnum(#[trigger] res@[k]),
{
    let id: uuid::Uuid = new_uuid_v4();
    let bytes: Vec<u8> = uuid_bytes(&id);
    let res: String = uid_from_bytes(&bytes);
    assert(res@ == uid_from_bytes_spec(bytes@));
    res
}

} // verus!
