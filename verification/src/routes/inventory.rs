//! The inventory pages: filtering lots, tracking a new single (its
//! supplied ID, storage location and scans), status changes and price
//! refreshes.
use vstd::prelude::*;
use crate::db::is_ascii_alnum;
use crate::routes::labels::{uid_from_bytes_spec, uid_len};
use crate::text::{
    chars_of, has_substring, lowercase, parse_i64, parse_i64_spec, same_text, string_of,
    to_lowercase, contains, trim, trim_chars, trim_seq,
};

verus! {

/// The filters of the inventory page.
pub struct InventoryQuery {
    pub set: Option<String>,
    pub condition: Option<String>,
    pub foil: Option<String>,
    pub q: Option<String>,
}

/// The form that changes a single's status.
pub struct UpdateStatusForm {
    pub status: String,
}

/// What the inventory filters read of a lot.
pub struct LotKey {
    pub name: String,
    pub set_code: String,
    pub condition: String,
    pub foil: String,
}

/// An equality filter that is set and not empty requires that value.
pub open spec fn passes_exact(filter: Option<String>, value: Seq<char>) -> bool {
    match filter {
        Some(f) => f@.len() == 0 || value == f@,
        None => true,
    }
}

/// A name filter that is set and not empty requires the lower-cased
/// name to contain the lower-cased filter.
pub open spec fn passes_search(filter: Option<String>, value: Seq<char>) -> bool {
    match filter {
        Some(f) => f@.len() == 0 || has_substring(lowercase(value), lowercase(f@)),
        None => true,
    }
}

/// Whether a lot is shown under the page's filters.
pub open spec fn lot_matches(p: InventoryQuery, k: LotKey) -> bool {
    &&& passes_search(p.q, k.name@)
    &&& passes_exact(p.set, k.set_code@)
    &&& passes_exact(p.condition, k.condition@)
    &&& passes_exact(p.foil, k.foil@)
}

/// The positions, in order, of the first `n` lots that match.
pub open spec fn matching_lots(p: InventoryQuery, rows: Seq<LotKey>, n: nat) -> Seq<int>
    decreases n,
{
    if n == 0 {
        Seq::<int>::empty()
    } else {
        let rest = matching_lots(p, rows, (n - 1) as nat);
        if lot_matches(p, rows[n - 1]) {
            rest.push(n - 1)
        } else {
            rest
        }
    }
}

fn passes_exact_exec(filter: &Option<String>, value: &str) -> (res: bool)
    ensures
        res == passes_exact(*filter, value@),
{
    match filter {
        Some(f) => f.as_str().unicode_len() == 0 || same_text(value, f.as_str()),
        None => true,
    }
}

fn passes_search_exec(filter: &Option<String>, value: &str) -> (res: bool)
    ensures
        res == passes_search(*filter, value@),
{
    match filter {
        Some(f) => {
            if f.as_str().unicode_len() == 0 {
                true
            } else {
                let lv: String = to_lowercase(value);
                let lf: String = to_lowercase(f.as_str());
                contains(lv.as_str(), lf.as_str())
            }
        },
        None => true,
    }
}

/// Filters that are missing or empty.
pub open spec fn all_blank(p: InventoryQuery) -> bool {
    &&& (p.q matches Some(f) ==> f@.len() == 0)
    &&& (p.set matches Some(f) ==> f@.len() == 0)
    &&& (p.condition matches Some(f) ==> f@.len() == 0)
    &&& (p.foil matches Some(f) ==> f@.len() == 0)
}

/// Law: with every filter missing or empty, the page lists every lot,
/// in order.
pub proof fn law_blank_filters_list_every_lot(p: InventoryQuery, rows: Seq<LotKey>, n: nat)
    requires
        all_blank(p),
        n <= rows.len(),
    ensures
        matching_lots(p, rows, n) == Seq::new(n, |i: int| i),
    decreases n,
{
    if n > 0 {
        law_blank_filters_list_every_lot(p, rows, (n - 1) as nat);
        assert(lot_matches(p, rows[n - 1]));
        assert(Seq::new((n - 1) as nat, |i: int| i).push(n - 1) =~= Seq::new(n, |i: int| i));
    } else {
        assert(Seq::new(0, |i: int| i) =~= Seq::<int>::empty());
    }
}

/// Whether a lot passes the inventory page's filters: the search term
/// (case-insensitively in the card name) and the exact set, condition and
/// finish, each only when given and not empty.
pub fn inventory_row_matches(params: &InventoryQuery, row: &LotKey) -> (res: bool)
    ensures
        res == lot_matches(*params, *row),
{
    passes_search_exec(&params.q, row.name.as_str()) && passes_exact_exec(
        &params.set,
        row.set_code.as_str(),
    ) && passes_exact_exec(&params.condition, row.condition.as_str()) && passes_exact_exec(
        &params.foil,
        row.foil.as_str(),
    )
}

/// The positions of the lots that the inventory page shows, in order.
pub fn filter_inventory(params: &InventoryQuery, rows: &Vec<LotKey>) -> (res: Vec<usize>)
    ensures
        res@.map_values(|i: usize| i as int) == matching_lots(*params, rows@, rows.len() as nat),
{
    let mut res: Vec<usize> = Vec::new();
    let mut i: usize = 0;
    while i < rows.len()
        invariant
            i <= rows.len(),
            res@.map_values(|i: usize| i as int) == matching_lots(*params, rows@, i as nat),
        decreases rows.len() - i,
    {
        let ghost before = res@.map_values(|i: usize| i as int);
        if inventory_row_matches(params, &rows[i]) {
            res.push(i);
            assert(res@.map_values(|i: usize| i as int) =~= before.push(i as int));
        }
        i = i + 1;
    }
    res
}

// ───────────────────────────── a new single ─────────────────────────────────

/// The characters of `s` before its first `c` (all of `s` without one),
/// as `s.split(c).next()` gives them.
pub open spec fn before_char(s: Seq<char>, c: char) -> Seq<char>
    decreases s.len(),
{
    if s.len() == 0 || s[0] == c {
        Seq::<char>::empty()
    } else {
        seq![s[0]] + before_char(s.drop_first(), c)
    }
}

proof fn lemma_before_char(s: Seq<char>, c: char, k: int)
    requires
        0 <= k <= s.len(),
        forall|j: int| 0 <= j < k ==> #[trigger] s[j] != c,
        k == s.len() || s[k] == c,
    ensures
        before_char(s, c) == s.subrange(0, k),
    decreases k,
{
    if k > 0 {
        assert forall|j: int| 0 <= j < k - 1 implies #[trigger] s.drop_first()[j] != c by {
            assert(s.drop_first()[j] == s[j + 1]);
        }
        lemma_before_char(s.drop_first(), c, k - 1);
        assert(seq![s[0]] + s.drop_first().subrange(0, k - 1) =~= s.subrange(0, k));
    } else {
        assert(s.subrange(0, 0) =~= Seq::<char>::empty());
    }
}

/// The media type of a `Content-Type` value: before any `;`, trimmed.
pub open spec fn media_type(content_type: Seq<char>) -> Seq<char> {
    trim_seq(before_char(content_type, ';'))
}

/// The file extension kept for an uploaded scan.
pub open spec fn img_ext_spec(content_type: Seq<char>) -> Seq<char> {
    let m = media_type(content_type);
    if m == "image/png"@ {
        "png"@
    } else if m == "image/webp"@ {
        "webp"@
    } else if m == "image/gif"@ {
        "gif"@
    } else {
        "jpg"@
    }
}

/// The extension for a scan uploaded with the given `Content-Type`:
/// PNG, WebP and GIF keep theirs, anything else is stored as JPEG.
pub fn img_ext(content_type: &str) -> (res: String)
    ensures
        res@ == img_ext_spec(content_type@),
{
    let cs: Vec<char> = chars_of(content_type);
    let mut k: usize = 0;
    while k < cs.len() && cs[k] != ';'
        invariant
            k <= cs.len(),
            cs@ == content_type@,
            forall|j: int| 0 <= j < k ==> #[trigger] cs@[j] != ';',
        decreases cs.len() - k,
    {
        k = k + 1;
    }
    proof {
        lemma_before_char(cs@, ';', k as int);
    }
    let mut head: Vec<char> = Vec::new();
    let mut i: usize = 0;
    while i < k
        invariant
            k <= cs.len(),
            i <= k,
            head@ == cs@.subrange(0, i as int),
        decreases k - i,
    {
        head.push(cs[i]);
        i = i + 1;
    }
    let m: Vec<char> = trim_chars(&head);
    let ms: String = string_of(&m);
    let t: &str = ms.as_str();
    if same_text(t, "image/png") {
        "png".to_owned()
    } else if same_text(t, "image/webp") {
        "webp".to_owned()
    } else if same_text(t, "image/gif") {
        "gif".to_owned()
    } else {
        "jpg".to_owned()
    }
}

/// Whether `s` can serve as a single's ID: one to six ASCII letters or
/// digits.
pub open spec fn is_valid_card_id(s: Seq<char>) -> bool {
    &&& 0 < s.len() <= 6
    &&& forall|i: int| 0 <= i < s.len() ==> is_ascii_alnum(#[trigger] s[i])
}

/// The ID the form supplies for a new single: the `card_id` field,
/// trimmed, when it is a valid ID; otherwise one is generated.
pub open spec fn supplied_card_id_spec(card_id: Option<String>) -> Option<Seq<char>> {
    match card_id {
        Some(s) => if is_valid_card_id(trim_seq(s@)) { Some(trim_seq(s@)) } else { None },
        None => None,
    }
}

/// The `card_id` field of the new-single form, trimmed, if it is one to
/// six ASCII letters or digits (the UID printed on a pre-made label).
pub fn supplied_card_id(card_id: &Option<String>) -> (res: Option<String>)
    ensures
        match res {
            Some(s) => supplied_card_id_spec(*card_id) == Some(s@),
            None => supplied_card_id_spec(*card_id) is None,
        },
{
    match card_id {
        Some(s) => {
            let cs: Vec<char> = chars_of(s.as_str());
            let t: Vec<char> = trim_chars(&cs);
            assert(t@ == trim_seq(s@));
            if t.len() == 0 || t.len() > 6 {
                return None;
            }
            if !all_ascii_alnum(&t) {
                return None;
            }
            Some(string_of(&t))
        },
        None => None,
    }
}

fn all_ascii_alnum(t: &Vec<char>) -> (res: bool)
    ensures
        res == forall|j: int| 0 <= j < t.len() ==> is_ascii_alnum(#[trigger] t@[j]),
{
    let mut i: usize = 0;
    while i < t.len()
        invariant
            i <= t.len(),
            forall|j: int| 0 <= j < i ==> is_ascii_alnum(#[trigger] t@[j]),
        decreases t.len() - i,
    {
        let c: char = t[i];
        if !(('0' <= c && c <= '9') || ('a' <= c && c <= 'z') || ('A' <= c && c <= 'Z')) {
            assert(!is_ascii_alnum(t@[i as int]));
            return false;
        }
        i = i + 1;
    }
    true
}

/// How many IDs are tried for a new single: the supplied one once, or up
/// to five generated ones (a generated ID may collide).
pub fn insert_attempts(supplied: &Option<String>) -> (res: u32)
    ensures
        res == (if supplied is Some { 1u32 } else { 5u32 }),
{
    match supplied {
        Some(_) => 1,
        None => 5,
    }
}

/// The storage location chosen in the form: a positive whole number,
/// or none.
pub open spec fn location_id_spec(s: Seq<char>) -> Option<i64> {
    match parse_i64_spec(trim_seq(s)) {
        Some(v) => if v > 0 { Some(v) } else { None },
        None => None,
    }
}

/// Reads the `location_id` field of the new-single form.
pub fn parse_location_id(s: &str) -> (res: Option<i64>)
    ensures
        res == location_id_spec(s@),
{
    let t: String = trim(s);
    match parse_i64(t.as_str()) {
        Some(v) => if v > 0 { Some(v) } else { None },
        None => None,
    }
}

/// The `notes` field of a form: kept only when not empty.
pub fn nonempty_notes(s: String) -> (res: Option<String>)
    ensures
        match res {
            Some(n) => s@.len() > 0 && n@ == s@,
            None => s@.len() == 0,
        },
{
    if s.as_str().unicode_len() > 0 {
        Some(s)
    } else {
        None
    }
}

/// A random ID for a new single: six ASCII letters or digits.
pub fn gen_card_id() -> (res: String)
    ensures
        exists|b: Seq<u8>| b.len() == 16 && res@ == #[trigger] uid_from_bytes_spec(b),
        res@.len() == uid_len(),
        forall|k: int| 0 <= k < res@.len() ==> is_ascii_alnum(#[trigger] res@[k]),
{
    crate::routes::labels::gen_uid()
}

/// Law: every UID the label pool generates is accepted as a supplied ID
/// for a new single, so a printed label can be used as it is.
pub proof fn law_generated_uid_is_valid_card_id(bytes: Seq<u8>)
    requires
        bytes.len() >= 6,
    ensures
        is_valid_card_id(uid_from_bytes_spec(bytes)),
        trim_seq(uid_from_bytes_spec(bytes)) == uid_from_bytes_spec(bytes),
{
    let u = uid_from_bytes_spec(bytes);
    assert forall|i: int| 0 <= i < u.len() implies is_ascii_alnum(#[trigger] u[i]) by {
        let v: nat = (bytes[i] % 62) as nat;
        assert(((48 + v) as u32) as char as u32 == 48 + v);
        assert(((65 + (v - 10)) as u32) as char as u32 == 65 + (v - 10));
        assert(((97 + (v - 36)) as u32) as char as u32 == 97 + (v - 36));
    }
    assert(!crate::text::is_ws(u[0]));
    assert(!crate::text::is_ws(u.last()));
    crate::text::lemma_trim_fixed(u);
}


// ───────────────────────────── paths and redirects ──────────────────────────

/// The page of one card.
pub open spec fn card_page_path_spec(scryfall_id: Seq<char>) -> Seq<char> {
    "/inventory/card/"@ + scryfall_id
}

/// The URL path of a card's detail page.
pub fn card_page_path(scryfall_id: &str) -> (res: String)
    ensures
        res@ == card_page_path_spec(scryfall_id@),
{
    let mut p: String = "/inventory/card/".to_owned();
    p.append(scryfall_id);
    p
}

/// Where a status change returns to: the page of the single's card when
/// the single is found, the inventory otherwise.
pub fn status_redirect(scryfall_id: Option<String>) -> (res: String)
    ensures
        res@ == match scryfall_id {
            Some(id) => card_page_path_spec(id@),
            None => "/inventory"@,
        },
{
    match scryfall_id {
        Some(id) => card_page_path(id.as_str()),
        None => "/inventory".to_owned(),
    }
}

/// The file name of a scan: the side (`front` or `back`), a dot, and
/// the extension.
pub fn scan_file_name(side: &str, ext: &str) -> (res: String)
    ensures
        res@ == side@ + "."@ + ext@,
{
    let mut f: String = side.to_owned();
    f.append(".");
    f.append(ext);
    f
}

/// Where a scan is stored, relative to the scan directory: a directory
/// per single, named by its ID.
pub fn scan_relative_path(card_id: &str, file_name: &str) -> (res: String)
    ensures
        res@ == card_id@ + "/"@ + file_name@,
{
    let mut p: String = card_id.to_owned();
    p.append("/");
    p.append(file_name);
    p
}

/// The Scryfall API address of one card.
pub fn scryfall_card_url(scryfall_id: &str) -> (res: String)
    ensures
        res@ == "https://api.scryfall.com/cards/"@ + scryfall_id@,
{
    let mut u: String = "https://api.scryfall.com/cards/".to_owned();
    u.append(scryfall_id);
    u
}

// ───────────────────────────── price refresh ────────────────────────────────

/// The tally of a price refresh over the cards of the inventory.
pub struct PriceRefresh {
    pub total: usize,
    pub updated: u32,
    pub skipped: u32,
}

impl PriceRefresh {
    /// Every card fetched so far was either updated or skipped, and no
    /// more cards than there are were fetched.
    pub open spec fn wf(self) -> bool {
        self.updated + self.skipped <= self.total
    }

    /// A refresh of `total` cards that has not fetched any.
    pub fn new(total: usize) -> (res: PriceRefresh)
        ensures
            res.total == total,
            res.updated == 0,
            res.skipped == 0,
            res.wf(),
    {
        PriceRefresh { total, updated: 0, skipped: 0 }
    }

    /// Records a card whose prices were stored.
    pub fn record_updated(&mut self)
        requires
            old(self).wf(),
            old(self).updated + old(self).skipped < old(self).total,
            old(self).updated < u32::MAX,
        ensures
            final(self).total == old(self).total,
            final(self).updated == old(self).updated + 1,
            final(self).skipped == old(self).skipped,
            final(self).wf(),
    {
        self.updated = self.updated + 1;
    }

    /// Records a card whose fetch failed or whose answer could not be read.
    pub fn record_skipped(&mut self)
        requires
            old(self).wf(),
            old(self).updated + old(self).skipped < old(self).total,
            old(self).skipped < u32::MAX,
        ensures
            final(self).total == old(self).total,
            final(self).updated == old(self).updated,
            final(self).skipped == old(self).skipped + 1,
            final(self).wf(),
    {
        self.skipped = self.skipped + 1;
    }

    /// Whether every card has been fetched: each one was either updated
    /// or skipped.
    pub fn is_finished(&self) -> (res: bool)
        ensures
            res == (self.updated + self.skipped == self.total),
    {
        (self.updated as u64) + (self.skipped as u64) == self.total as u64
    }

    /// What a finished refresh reports: the number of cards, how many were
    /// updated and how many were skipped, which together are all the cards.
    pub fn finish(self) -> (res: (usize, u32, u32))
        requires
            self.updated + self.skipped == self.total,
        ensures
            res == (self.total, self.updated, self.skipped),
            res.1 + res.2 == res.0,
    {
        (self.total, self.updated, self.skipped)
    }
}

/// The finishes whose USD prices a refresh stores, in the order of
/// Scryfall's `usd`, `usd_foil` and `usd_etched` prices.
pub fn price_finishes() -> (res: Vec<&'static str>)
    ensures
        res@.map_values(|f: &str| f@) == seq!["normal"@, "foil"@, "etched"@],
{
    let v: Vec<&'static str> = vec!["normal", "foil", "etched"];
    assert(v@.map_values(|f: &str| f@) =~= seq!["normal"@, "foil"@, "etched"@]);
    v
}

} // verus!
