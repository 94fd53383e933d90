//! ManaBox and CardSphere CSV import: normalising CardSphere's values,
//! turning a row into the card and lot to upsert, and keeping the tally
//! that the import page reports.
use vstd::prelude::*;
use vstd::string::*;
use crate::text::{
    decimal, lowercase, push_decimal, same_text, to_lowercase,
    to_uppercase, trim_chars, trim_seq, uppercase, chars_of, string_of, is_ws,
    ascii_lower, ascii_upper, is_ascii_seq, lemma_ascii_case,
};

verus! {

/// CardSphere CSV export row shape
#[derive(Debug)]
pub struct CardSphereRow {
    pub count: i64,
    pub tradelist_count: i64,
    pub name: String,
    pub edition: String,
    /// "NM", "LP", "MP", "HP", "DMG"
    pub condition: String,
    /// "EN", "JP", etc.
    pub language: String,
    /// "N" | "Y"
    pub foil: String,
    pub tags: Option<String>,
    pub scryfall_id: Option<String>,
    pub cardsphere_id: Option<i64>,
    pub last_modified: Option<String>,
}

// ───────────────────────────── normalising values ───────────────────────────

/// The stored condition for an upper-cased CardSphere (or already
/// normalised) condition; unknown values are near mint.
pub open spec fn condition_from_upper_spec(u: Seq<char>) -> Seq<char> {
    if u == "NM"@ || u == "NEAR_MINT"@ {
        "near_mint"@
    } else if u == "LP"@ || u == "LIGHTLY_PLAYED"@ {
        "lightly_played"@
    } else if u == "MP"@ || u == "MODERATELY_PLAYED"@ {
        "moderately_played"@
    } else if u == "HP"@ || u == "HEAVILY_PLAYED"@ {
        "heavily_played"@
    } else if u == "DMG"@ || u == "DAMAGED"@ {
        "damaged"@
    } else {
        "near_mint"@
    }
}

/// The stored condition for a CardSphere (or already normalised)
/// condition: matched case-insensitively, unknown values are near mint.
pub open spec fn normalize_condition_spec(cs: Seq<char>) -> Seq<char> {
    condition_from_upper_spec(uppercase(cs))
}

/// The five stored conditions.
pub open spec fn is_stored_condition(c: Seq<char>) -> bool {
    ||| c == "near_mint"@
    ||| c == "lightly_played"@
    ||| c == "moderately_played"@
    ||| c == "heavily_played"@
    ||| c == "damaged"@
}

/// The stored condition for a condition already in upper case.
pub fn condition_from_upper(u: &str) -> (res: &'static str)
    ensures
        res@ == condition_from_upper_spec(u@),
        is_stored_condition(res@),
{
    if same_text(u, "NM") || same_text(u, "NEAR_MINT") {
        "near_mint"
    } else if same_text(u, "LP") || same_text(u, "LIGHTLY_PLAYED") {
        "lightly_played"
    } else if same_text(u, "MP") || same_text(u, "MODERATELY_PLAYED") {
        "moderately_played"
    } else if same_text(u, "HP") || same_text(u, "HEAVILY_PLAYED") {
        "heavily_played"
    } else if same_text(u, "DMG") || same_text(u, "DAMAGED") {
        "damaged"
    } else {
        "near_mint"
    }
}

/// Maps a CardSphere condition ("NM", "LP", ...) or a spelled-out one to
/// the stored condition; anything else counts as near mint.
pub fn normalize_condition(cs: &str) -> (res: &'static str)
    ensures
        res@ == normalize_condition_spec(cs@),
        is_stored_condition(res@),
{
    let upper: String = to_uppercase(cs);
    condition_from_upper(upper.as_str())
}

/// The stored finish for an upper-cased foil flag.
pub open spec fn foil_from_upper_spec(u: Seq<char>) -> Seq<char> {
    if u == "Y"@ || u == "FOIL"@ {
        "foil"@
    } else {
        "normal"@
    }
}

/// The stored finish for a CardSphere foil flag.
pub open spec fn normalize_foil_spec(f: Seq<char>) -> Seq<char> {
    foil_from_upper_spec(uppercase(f))
}

/// The stored finish for a foil flag already in upper case.
pub fn foil_from_upper(u: &str) -> (res: &'static str)
    ensures
        res@ == foil_from_upper_spec(u@),
        res@ == "foil"@ || res@ == "normal"@,
{
    if same_text(u, "Y") || same_text(u, "FOIL") {
        "foil"
    } else {
        "normal"
    }
}

/// "Y" or "FOIL" (in any case) is a foil; anything else is normal.
pub fn normalize_foil(f: &str) -> (res: &'static str)
    ensures
        res@ == normalize_foil_spec(f@),
        res@ == "foil"@ || res@ == "normal"@,
{
    let upper: String = to_uppercase(f);
    foil_from_upper(upper.as_str())
}

/// `uppercase` of a lower-case ASCII text: its ASCII upper case.
proof fn lemma_upper_lit(l: Seq<char>, u: Seq<char>)
    requires
        is_ascii_seq(l),
        ascii_upper(l) == u,
    ensures
        uppercase(l) == u,
{
}

/// Law: a stored condition normalises to itself, so normalising a
/// condition twice gives what normalising it once gives.
pub proof fn law_condition_idempotent(cs: Seq<char>)
    ensures
        normalize_condition_spec(normalize_condition_spec(cs)) == normalize_condition_spec(cs),
{
    let r = normalize_condition_spec(cs);
    reveal_strlit("near_mint");
    reveal_strlit("NEAR_MINT");
    reveal_strlit("lightly_played");
    reveal_strlit("LIGHTLY_PLAYED");
    reveal_strlit("moderately_played");
    reveal_strlit("MODERATELY_PLAYED");
    reveal_strlit("heavily_played");
    reveal_strlit("HEAVILY_PLAYED");
    reveal_strlit("damaged");
    reveal_strlit("DAMAGED");
    reveal_strlit("NM");
    reveal_strlit("LP");
    reveal_strlit("MP");
    reveal_strlit("HP");
    reveal_strlit("DMG");
    if r == "near_mint"@ {
        assert(ascii_upper("near_mint"@) =~= "NEAR_MINT"@);
        lemma_upper_lit("near_mint"@, "NEAR_MINT"@);
        assert(condition_from_upper_spec("NEAR_MINT"@) == "near_mint"@);
    } else if r == "lightly_played"@ {
        assert(ascii_upper("lightly_played"@) =~= "LIGHTLY_PLAYED"@);
        lemma_upper_lit("lightly_played"@, "LIGHTLY_PLAYED"@);
        assert(condition_from_upper_spec("LIGHTLY_PLAYED"@) == "lightly_played"@);
    } else if r == "moderately_played"@ {
        assert(ascii_upper("moderately_played"@) =~= "MODERATELY_PLAYED"@);
        lemma_upper_lit("moderately_played"@, "MODERATELY_PLAYED"@);
        assert(condition_from_upper_spec("MODERATELY_PLAYED"@) == "moderately_played"@);
    } else if r == "heavily_played"@ {
        assert(ascii_upper("heavily_played"@) =~= "HEAVILY_PLAYED"@);
        lemma_upper_lit("heavily_played"@, "HEAVILY_PLAYED"@);
        assert("HEAVILY_PLAYED"@[0] != "LIGHTLY_PLAYED"@[0]);
        assert(condition_from_upper_spec("HEAVILY_PLAYED"@) == "heavily_played"@);
    } else {
        assert(r == "damaged"@);
        assert(ascii_upper("damaged"@) =~= "DAMAGED"@);
        lemma_upper_lit("damaged"@, "DAMAGED"@);
        assert(condition_from_upper_spec("DAMAGED"@) == "damaged"@);
    }
}

/// Law: on ASCII text the condition is matched without regard to case:
/// lowering the text first (as `to_ascii_lowercase` does) changes nothing.
pub proof fn law_condition_ascii_case_insensitive(cs: Seq<char>)
    requires
        is_ascii_seq(cs),
    ensures
        normalize_condition_spec(ascii_lower(cs)) == normalize_condition_spec(cs),
{
    lemma_ascii_case(cs);
}

/// Law: a stored finish normalises to itself, so normalising a foil flag
/// twice gives what normalising it once gives.
pub proof fn law_foil_idempotent(f: Seq<char>)
    ensures
        normalize_foil_spec(normalize_foil_spec(f)) == normalize_foil_spec(f),
{
    reveal_strlit("foil");
    reveal_strlit("FOIL");
    reveal_strlit("normal");
    reveal_strlit("NORMAL");
    reveal_strlit("Y");
    if normalize_foil_spec(f) == "foil"@ {
        assert(ascii_upper("foil"@) =~= "FOIL"@);
        lemma_upper_lit("foil"@, "FOIL"@);
    } else {
        assert(ascii_upper("normal"@) =~= "NORMAL"@);
        lemma_upper_lit("normal"@, "NORMAL"@);
        assert("NORMAL"@ != "FOIL"@);
        assert("NORMAL"@ != "Y"@);
    }
}

/// Language codes are stored in lower case.
pub fn normalize_language(lang: &str) -> (res: String)
    ensures
        res@ == lowercase(lang@),
{
    to_lowercase(lang)
}

// ───────────────────────────── tags ─────────────────────────────────────────

/// `str::split` on the character `sep`: the pieces between separators,
/// empty ones included (so the empty string gives one empty piece).
pub open spec fn split_seq(s: Seq<char>, sep: char) -> Seq<Seq<char>>
    decreases s.len(),
{
    if s.len() == 0 {
        seq![Seq::<char>::empty()]
    } else {
        let prev = split_seq(s.drop_last(), sep);
        if s.last() == sep {
            prev.push(Seq::<char>::empty())
        } else {
            prev.update(prev.len() - 1, prev.last().push(s.last()))
        }
    }
}

/// The pieces, trimmed, without the empty ones.
pub open spec fn trimmed_nonempty(ps: Seq<Seq<char>>) -> Seq<Seq<char>>
    decreases ps.len(),
{
    if ps.len() == 0 {
        Seq::<Seq<char>>::empty()
    } else {
        let rest = trimmed_nonempty(ps.drop_last());
        let t = trim_seq(ps.last());
        if t.len() > 0 {
            rest.push(t)
        } else {
            rest
        }
    }
}

/// The tags of a comma-separated tag list: each trimmed, empty ones dropped.
pub open spec fn tag_list(tags: Seq<char>) -> Seq<Seq<char>> {
    trimmed_nonempty(split_seq(trim_seq(tags), ','))
}

/// Splitting always gives at least one piece.
pub proof fn lemma_split_len(s: Seq<char>, sep: char)
    ensures
        split_seq(s, sep).len() > 0,
{
    lemma_split_nonempty(s, sep);
}

proof fn lemma_split_nonempty(s: Seq<char>, sep: char)
    ensures
        split_seq(s, sep).len() > 0,
    decreases s.len(),
{
    if s.len() > 0 {
        lemma_split_nonempty(s.drop_last(), sep);
    }
}

/// Law: every tag is non-empty and neither starts nor ends with
/// whitespace.
pub proof fn law_tags_are_trimmed(ps: Seq<Seq<char>>)
    ensures
        forall|k: int| 0 <= k < trimmed_nonempty(ps).len() ==> {
            let t = #[trigger] trimmed_nonempty(ps)[k];
            t.len() > 0 && !is_ws(t[0]) && !is_ws(t.last())
        },
    decreases ps.len(),
{
    if ps.len() > 0 {
        law_tags_are_trimmed(ps.drop_last());
        crate::text::lemma_trim_shape(ps.last());
        let rest = trimmed_nonempty(ps.drop_last());
        let all = trimmed_nonempty(ps);
        assert forall|k: int| 0 <= k < all.len() implies {
            let t = #[trigger] all[k];
            t.len() > 0 && !is_ws(t[0]) && !is_ws(t.last())
        } by {
            if k < rest.len() {
                assert(all[k] == rest[k]);
            }
        }
    }
}

/// The tags of `text`, each trimmed, empty ones dropped.
pub fn split_tags(text: &Vec<char>) -> (res: Vec<String>)
    ensures
        res@.map_values(|t: String| t@) == trimmed_nonempty(split_seq(text@, ',')),
{
    let mut done: Vec<String> = Vec::new();
    let mut cur: Vec<char> = Vec::new();
    let mut i: usize = 0;
    proof {
        assert(text@.subrange(0, 0) =~= Seq::<char>::empty());
    }
    while i < text.len()
        invariant
            i <= text.len(),
            split_seq(text@.subrange(0, i as int), ',').len() > 0,
            cur@ == split_seq(text@.subrange(0, i as int), ',').last(),
            done@.map_values(|t: String| t@) == trimmed_nonempty(
                split_seq(text@.subrange(0, i as int), ',').drop_last(),
            ),
        decreases text.len() - i,
    {
        let ghost prev = split_seq(text@.subrange(0, i as int), ',');
        let ghost next_s = text@.subrange(0, i + 1);
        proof {
            assert(next_s.drop_last() =~= text@.subrange(0, i as int));
            lemma_split_nonempty(next_s, ',');
        }
        let c: char = text[i];
        if c == ',' {
            let t: Vec<char> = trim_chars(&cur);
            proof {
                assert(split_seq(next_s, ',') == prev.push(Seq::<char>::empty()));
                assert(prev.push(Seq::<char>::empty()).drop_last() =~= prev);
                assert(prev.drop_last().push(prev.last()) =~= prev);
            }
            if t.len() > 0 {
                let ts: String = string_of(&t);
                done.push(ts);
            }
            cur = Vec::new();
            proof {
                assert(done@.map_values(|t: String| t@) =~= trimmed_nonempty(prev));
            }
        } else {
            cur.push(c);
            proof {
                let nx = prev.update(prev.len() - 1, prev.last().push(c));
                assert(split_seq(next_s, ',') == nx);
                assert(nx.drop_last() =~= prev.drop_last());
            }
        }
        i = i + 1;
    }
    proof {
        assert(text@.subrange(0, text.len() as int) =~= text@);
    }
    let ghost all = split_seq(text@, ',');
    let t: Vec<char> = trim_chars(&cur);
    proof {
        assert(all.drop_last().push(all.last()) =~= all);
    }
    if t.len() > 0 {
        let ts: String = string_of(&t);
        done.push(ts);
    }
    proof {
        assert(done@.map_values(|t: String| t@) =~= trimmed_nonempty(all));
    }
    done
}

/// How `serde_json` writes one character inside a JSON string: quote,
/// backslash and the control characters are escaped.
pub open spec fn json_escape(c: char) -> Seq<char> {
    if c == '"' {
        seq!['\\', '"']
    } else if c == '\\' {
        seq!['\\', '\\']
    } else if c == '\u{8}' {
        seq!['\\', 'b']
    } else if c == '\u{9}' {
        seq!['\\', 't']
    } else if c == '\u{a}' {
        seq!['\\', 'n']
    } else if c == '\u{c}' {
        seq!['\\', 'f']
    } else if c == '\u{d}' {
        seq!['\\', 'r']
    } else if (c as u32) < 0x20 {
        seq!['\\', 'u', '0', '0', hex_lower((c as u32 / 16) as nat), hex_lower((c as u32 % 16) as nat)]
    } else {
        seq![c]
    }
}

/// A lower-case hexadecimal digit.
pub open spec fn hex_lower(d: nat) -> char {
    if d < 10 {
        ((48 + d) as u32) as char
    } else {
        ((87 + d) as u32) as char
    }
}

/// The characters of `s`, escaped.
pub open spec fn json_chars(s: Seq<char>) -> Seq<char>
    decreases s.len(),
{
    if s.len() == 0 {
        Seq::<char>::empty()
    } else {
        json_chars(s.drop_last()) + json_escape(s.last())
    }
}

/// `s` as a JSON string literal.
pub open spec fn json_string(s: Seq<char>) -> Seq<char> {
    seq!['"'] + json_chars(s) + seq!['"']
}

/// The elements of a JSON array of strings, separated by commas.
pub open spec fn json_string_items(items: Seq<Seq<char>>) -> Seq<char>
    decreases items.len(),
{
    if items.len() == 0 {
        Seq::<char>::empty()
    } else if items.len() == 1 {
        json_string(items[0])
    } else {
        json_string_items(items.drop_last()) + seq![','] + json_string(items.last())
    }
}

/// The compact JSON text of an array of strings, as `serde_json::to_string`
/// writes it.
pub open spec fn json_string_array(items: Seq<Seq<char>>) -> Seq<char> {
    seq!['['] + json_string_items(items) + seq![']']
}

/// `serde_json::to_string` on a list of strings: the compact JSON array
/// of the strings, with `"`, `\` and the control characters escaped
/// (`\b \t \n \f \r`, the others as `\u00xx`), as `serde_json`'s
/// compact formatter writes it. Writing a list of strings into memory
/// has no error case in `serde_json`'s source; the empty string stands
/// for one all the same.
#[verifier::external_body]
fn json_encode_strings(items: &Vec<String>) -> (res: String)
    ensures
        res@ == json_string_array(items@.map_values(|t: String| t@)),
{
    serde_json::to_string(items).unwrap_or_default()
}

/// What `tags_to_json` gives for the tag field: nothing for a missing or
/// blank field or one with no non-empty tag, otherwise the tags as a JSON
/// array of strings.
pub open spec fn tags_to_json_spec(tags: Option<String>) -> Option<Seq<char>> {
    let t = trim_seq(
        match tags {
            Some(s) => s@,
            None => Seq::<char>::empty(),
        },
    );
    if t.len() == 0 {
        None
    } else {
        let parts = tag_list(t);
        if parts.len() == 0 {
            None
        } else {
            Some(json_string_array(parts))
        }
    }
}

/// Converts CardSphere's comma-separated tags to the stored JSON array.
pub fn tags_to_json(tags: &Option<String>) -> (res: Option<String>)
    ensures
        match res {
            Some(s) => tags_to_json_spec(*tags) == Some(s@),
            None => tags_to_json_spec(*tags) is None,
        },
{
    let raw: Vec<char> = match tags {
        Some(s) => chars_of(s.as_str()),
        None => Vec::new(),
    };
    let t: Vec<char> = trim_chars(&raw);
    if t.len() == 0 {
        return None;
    }
    proof {
        crate::text::law_trim_idempotent(raw@);
    }
    let parts: Vec<String> = split_tags(&t);
    if parts.len() == 0 {
        None
    } else {
        Some(json_encode_strings(&parts))
    }
}


// ───────────────────────────── the import tally ─────────────────────────────

/// What an import reports back: rows seen, cards and lots written, and
/// one message for each row that did not end in a written lot.
#[derive(Debug)]
pub struct ImportResult {
    pub rows_processed: usize,
    pub cards_upserted: usize,
    pub lots_upserted: usize,
    pub errors: Vec<String>,
}

/// The tally of an import as plain values.
pub struct ImportTally {
    pub rows: nat,
    pub cards: nat,
    pub lots: nat,
    pub errors: Seq<Seq<char>>,
}

impl View for ImportResult {
    type V = ImportTally;

    open spec fn view(&self) -> ImportTally {
        ImportTally {
            rows: self.rows_processed as nat,
            cards: self.cards_upserted as nat,
            lots: self.lots_upserted as nat,
            errors: self.errors@.map_values(|e: String| e@),
        }
    }
}

/// How one CSV row of an import ended.
#[derive(Debug)]
pub enum RowOutcome {
    /// The row could not be read; the reader's message.
    Unreadable(String),
    /// The row has no Scryfall ID (a sealed product, for instance).
    NoScryfallId { name: String, edition: String },
    /// Writing the card failed; the database's message.
    CardFailed { name: String, scryfall_id: String, error: String },
    /// The card was written, writing the lot failed.
    LotFailed { name: String, error: String },
    /// The card and the lot were written.
    Imported,
}

/// The message that a row's outcome adds to the report, if any;
/// `row` counts the rows before it, so the header is line 1 and the
/// row is line `row + 2` of the file.
pub open spec fn outcome_message(row: nat, o: RowOutcome) -> Option<Seq<char>> {
    match o {
        RowOutcome::Unreadable(e) => Some("Row "@ + decimal(row + 2) + ": "@ + e@),
        RowOutcome::NoScryfallId { name, edition } => Some(
            "Row "@ + decimal(row + 2) + ": skipped '"@ + name@ + "' ("@ + edition@
                + "): no Scryfall ID"@,
        ),
        RowOutcome::CardFailed { name, scryfall_id, error } => Some(
            "Card upsert failed for '"@ + name@ + "' ("@ + scryfall_id@ + "): "@ + error@,
        ),
        RowOutcome::LotFailed { name, error } => Some(
            "Lot upsert failed for '"@ + name@ + "': "@ + error@,
        ),
        RowOutcome::Imported => None,
    }
}

/// Whether the card of the row was written.
pub open spec fn card_written(o: RowOutcome) -> bool {
    o is LotFailed || o is Imported
}

/// The tally after one more row.
pub open spec fn record_spec(t: ImportTally, o: RowOutcome) -> ImportTally {
    ImportTally {
        rows: t.rows + 1,
        cards: if card_written(o) { t.cards + 1 } else { t.cards },
        lots: if o is Imported { t.lots + 1 } else { t.lots },
        errors: match outcome_message(t.rows, o) {
            Some(m) => t.errors.push(m),
            None => t.errors,
        },
    }
}

/// The tally of an import that has not read a row.
pub open spec fn empty_tally() -> ImportTally {
    ImportTally { rows: 0, cards: 0, lots: 0, errors: Seq::empty() }
}

/// The tally after the rows whose outcomes are `os`, in order.
pub open spec fn tally_of(os: Seq<RowOutcome>) -> ImportTally
    decreases os.len(),
{
    if os.len() == 0 {
        empty_tally()
    } else {
        record_spec(tally_of(os.drop_last()), os.last())
    }
}

/// The accounting that every import keeps: each row ends either in a
/// written lot or in exactly one message, and no more lots than cards,
/// and no more cards than rows, were written.
pub open spec fn tally_balanced(t: ImportTally) -> bool {
    &&& t.lots + t.errors.len() == t.rows
    &&& t.lots <= t.cards <= t.rows
}

impl ImportResult {
    /// An import that has not read a row.
    pub fn new() -> (res: ImportResult)
        ensures
            res@ == empty_tally(),
    {
        let res = ImportResult {
            rows_processed: 0,
            cards_upserted: 0,
            lots_upserted: 0,
            errors: Vec::new(),
        };
        assert(res@.errors =~= Seq::<Seq<char>>::empty());
        res
    }

    /// Records how the next row ended.
    pub fn record_row(&mut self, outcome: RowOutcome)
        requires
            old(self).rows_processed + 2 <= usize::MAX,
            old(self).cards_upserted < usize::MAX,
            old(self).lots_upserted < usize::MAX,
        ensures
            final(self)@ == record_spec(old(self)@, outcome),
    {
        let ghost t = self@;
        let ghost o = outcome;
        let row: usize = self.rows_processed;
        let msg: Option<String> = match outcome {
            RowOutcome::Unreadable(e) => {
                let mut m: String = "Row ".to_owned();
                push_decimal(&mut m, (row + 2) as u64);
                m.append(": ");
                m.append(e.as_str());
                Some(m)
            },
            RowOutcome::NoScryfallId { name, edition } => {
                let mut m: String = "Row ".to_owned();
                push_decimal(&mut m, (row + 2) as u64);
                m.append(": skipped '");
                m.append(name.as_str());
                m.append("' (");
                m.append(edition.as_str());
                m.append("): no Scryfall ID");
                Some(m)
            },
            RowOutcome::CardFailed { name, scryfall_id, error } => {
                let mut m: String = "Card upsert failed for '".to_owned();
                m.append(name.as_str());
                m.append("' (");
                m.append(scryfall_id.as_str());
                m.append("): ");
                m.append(error.as_str());
                Some(m)
            },
            RowOutcome::LotFailed { name, error } => {
                self.cards_upserted = self.cards_upserted + 1;
                let mut m: String = "Lot upsert failed for '".to_owned();
                m.append(name.as_str());
                m.append("': ");
                m.append(error.as_str());
                Some(m)
            },
            RowOutcome::Imported => {
                self.cards_upserted = self.cards_upserted + 1;
                self.lots_upserted = self.lots_upserted + 1;
                None
            },
        };
        self.rows_processed = row + 1;
        let ghost before = self.errors@;
        match msg {
            Some(m) => {
                proof {
                    assert(outcome_message(t.rows, o) == Some(m@));
                }
                self.errors.push(m);
                assert(self.errors@.map_values(|e: String| e@) =~= t.errors.push(m@));
            },
            None => {},
        }
    }
}

/// Law: every import tally is balanced — each row read ends either in a
/// written lot or in exactly one report message, lots never outnumber
/// cards, and cards never outnumber rows.
pub proof fn law_import_tally_balanced(os: Seq<RowOutcome>)
    ensures
        tally_balanced(tally_of(os)),
        tally_of(os).rows == os.len(),
    decreases os.len(),
{
    if os.len() > 0 {
        law_import_tally_balanced(os.drop_last());
    }
}

/// Law: recording a row keeps a balanced tally balanced.
pub proof fn law_record_keeps_balance(t: ImportTally, o: RowOutcome)
    requires
        tally_balanced(t),
    ensures
        tally_balanced(record_spec(t, o)),
{
}

/// The currency of a ManaBox purchase price: the export's, or USD.
pub fn purchase_currency(currency: Option<String>) -> (res: String)
    ensures
        res@ == match currency {
            Some(c) => c@,
            None => "USD"@,
        },
{
    match currency {
        Some(c) => c,
        None => "USD".to_owned(),
    }
}

// ───────────────────────────── planning a row ───────────────────────────────

/// The card and lot that a CardSphere row writes.
#[derive(Debug)]
pub struct CardSphereLot {
    pub scryfall_id: String,
    pub name: String,
    pub edition: String,
    pub language: String,
    pub condition: String,
    pub foil: String,
    pub quantity: i64,
    pub tags_json: Option<String>,
}

/// The row's Scryfall ID, when it has a non-empty one.
pub open spec fn usable_scryfall_id(row: CardSphereRow) -> Option<Seq<char>> {
    match row.scryfall_id {
        Some(id) => if id@.len() > 0 { Some(id@) } else { None },
        None => None,
    }
}

impl CardSphereLot {
    /// Whether this lot is what `row` writes.
    pub open spec fn planned_from(self, row: CardSphereRow) -> bool {
        &&& usable_scryfall_id(row) == Some(self.scryfall_id@)
        &&& self.name@ == row.name@
        &&& self.edition@ == row.edition@
        &&& self.language@ == lowercase(row.language@)
        &&& self.condition@ == normalize_condition_spec(row.condition@)
        &&& self.foil@ == normalize_foil_spec(row.foil@)
        &&& self.quantity == row.count
        &&& match self.tags_json {
            Some(j) => tags_to_json_spec(row.tags) == Some(j@),
            None => tags_to_json_spec(row.tags) is None,
        }
    }
}

/// What a CardSphere row writes: nothing when it has no Scryfall ID
/// (sealed products, for instance), otherwise the card with its name,
/// edition and lower-cased language, and a lot with the normalised
/// condition and finish, the row's count, and the tags as JSON.
pub fn plan_cardsphere_row(row: &CardSphereRow) -> (res: Option<CardSphereLot>)
    ensures
        match res {
            Some(lot) => lot.planned_from(*row),
            None => usable_scryfall_id(*row) is None,
        },
{
    let id: String = match &row.scryfall_id {
        Some(id) => {
            if id.as_str().unicode_len() == 0 {
                return None;
            }
            id.clone()
        },
        None => {
            return None;
        },
    };
    let condition: &str = normalize_condition(row.condition.as_str());
    let foil: &str = normalize_foil(row.foil.as_str());
    Some(
        CardSphereLot {
            scryfall_id: id,
            name: row.name.clone(),
            edition: row.edition.clone(),
            language: normalize_language(row.language.as_str()),
            condition: condition.to_owned(),
            foil: foil.to_owned(),
            quantity: row.count,
            tags_json: tags_to_json(&row.tags),
        },
    )
}

} // verus!
