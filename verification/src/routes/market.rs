//! The market page: which two bulk imports are compared, the set filter,
//! the risers/fallers query, and the terms of a price search. Prices are
//! floating point and are compared by the database and the server.
use vstd::prelude::*;
use crate::text::{has_substring, has_suffix, occurs_at, trim, trim_seq};

verus! {

/// The market page's set filter.
pub struct MarketQuery {
    pub set: Option<String>,
}

/// The two imports that price movements compare: the newest and the one
/// before it, when there are at least two (`ids` lists the newest first).
pub fn comparison_imports(ids: &Vec<i64>) -> (res: Option<(i64, i64)>)
    ensures
        ids.len() >= 2 ==> res == Some((ids[0], ids[1])),
        ids.len() < 2 ==> res is None,
{
    if ids.len() >= 2 {
        Some((ids[0], ids[1]))
    } else {
        None
    }
}

/// The set filter of the risers and fallers: the query's set, or empty
/// (no filter) when missing or empty.
pub fn market_set_filter(set: &Option<String>) -> (res: String)
    ensures
        res@ == match set {
            Some(s) => s@,
            None => Seq::<char>::empty(),
        },
{
    match set {
        Some(s) => s.clone(),
        None => String::new(),
    }
}

/// The price movements between two imports, of cards priced at least
/// 0.25 whose price changed. Its parameters are the older import, the
/// newer import and, with a set filter, the set code.
pub open spec fn movers_base_sql() -> Seq<char> {
    "SELECT bc.name, bc.set_code, bc.scryfall_id, bp_new.price_usd AS price_new, bp_old.price_usd AS price_old, (bp_new.price_usd - bp_old.price_usd) AS delta, CASE WHEN bp_old.price_usd > 0 THEN (bp_new.price_usd - bp_old.price_usd) / bp_old.price_usd * 100 ELSE 0 END AS pct FROM bulk_prices bp_new JOIN bulk_prices bp_old ON bp_old.scryfall_id = bp_new.scryfall_id AND bp_old.import_id = ? JOIN scryfall_bulk_cards bc ON bc.scryfall_id = bp_new.scryfall_id WHERE bp_new.import_id = ? AND bp_new.price_usd IS NOT NULL AND bp_old.price_usd IS NOT NULL AND bp_new.price_usd >= 0.25 AND bp_new.price_usd != bp_old.price_usd"@
}

/// The query for the 25 top risers (or fallers), with or without the set
/// filter.
pub open spec fn movers_query_spec(set_filtered: bool, rising: bool) -> Seq<char> {
    movers_base_sql() + (if set_filtered { " AND bc.set_code = ?"@ } else { Seq::<char>::empty() })
        + (if rising { " ORDER BY delta DESC LIMIT 25"@ } else { " ORDER BY delta ASC LIMIT 25"@ })
}

/// The SQL of the risers (`rising`) or fallers list.
pub fn movers_query(set_filtered: bool, rising: bool) -> (res: String)
    ensures
        res@ == movers_query_spec(set_filtered, rising),
{
    let mut q: String =
        "SELECT bc.name, bc.set_code, bc.scryfall_id, bp_new.price_usd AS price_new, bp_old.price_usd AS price_old, (bp_new.price_usd - bp_old.price_usd) AS delta, CASE WHEN bp_old.price_usd > 0 THEN (bp_new.price_usd - bp_old.price_usd) / bp_old.price_usd * 100 ELSE 0 END AS pct FROM bulk_prices bp_new JOIN bulk_prices bp_old ON bp_old.scryfall_id = bp_new.scryfall_id AND bp_old.import_id = ? JOIN scryfall_bulk_cards bc ON bc.scryfall_id = bp_new.scryfall_id WHERE bp_new.import_id = ? AND bp_new.price_usd IS NOT NULL AND bp_old.price_usd IS NOT NULL AND bp_new.price_usd >= 0.25 AND bp_new.price_usd != bp_old.price_usd".to_owned();
    let ghost base = q@;
    if set_filtered {
        q.append(" AND bc.set_code = ?");
    } else {
        assert(q@ =~= base + Seq::<char>::empty());
    }
    if rising {
        q.append(" ORDER BY delta DESC LIMIT 25");
    } else {
        q.append(" ORDER BY delta ASC LIMIT 25");
    }
    q
}

/// `p` occurs in `a + p + b`.
proof fn lemma_occurs_between(a: Seq<char>, p: Seq<char>, b: Seq<char>)
    ensures
        has_substring(a + p + b, p),
{
    assert((a + p + b).subrange(a.len() as int, a.len() + p.len() as int) =~= p);
    assert(occurs_at(a + p + b, p, a.len() as int));
}

/// Law: in the risers and fallers query the `delta` column is the newer
/// import's price minus the older import's (`bp_new` minus `bp_old`); the
/// first parameter (the older import, as [`comparison_imports`] gives it
/// second) is bound to `bp_old` and the second (the newer) to `bp_new`;
/// the risers are ordered by `delta` from the largest rise down and the
/// fallers from the largest fall up, 25 at most.
pub proof fn law_movers_delta_is_rise(set_filtered: bool, rising: bool)
    ensures
        has_substring(movers_query_spec(set_filtered, rising), "(bp_new.price_usd - bp_old.price_usd) AS delta"@),
        exists|a: Seq<char>, b: Seq<char>, c: Seq<char>|
            !a.contains('?') && !b.contains('?') && movers_query_spec(set_filtered, rising) == a
                + "bp_old.import_id = ?"@ + b + "bp_new.import_id = ?"@ + c,
        rising ==> has_suffix(movers_query_spec(set_filtered, rising), " ORDER BY delta DESC LIMIT 25"@),
        !rising ==> has_suffix(movers_query_spec(set_filtered, rising), " ORDER BY delta ASC LIMIT 25"@),
{
    let q = movers_query_spec(set_filtered, rising);
    let a = "SELECT bc.name, bc.set_code, bc.scryfall_id, bp_new.price_usd AS price_new, bp_old.price_usd AS price_old, "@;
    let d = "(bp_new.price_usd - bp_old.price_usd) AS delta"@;
    let b = ", CASE WHEN bp_old.price_usd > 0 THEN (bp_new.price_usd - bp_old.price_usd) / bp_old.price_usd * 100 ELSE 0 END AS pct FROM bulk_prices bp_new JOIN bulk_prices bp_old ON bp_old.scryfall_id = bp_new.scryfall_id AND "@;
    let o = "bp_old.import_id = ?"@;
    let c = " JOIN scryfall_bulk_cards bc ON bc.scryfall_id = bp_new.scryfall_id WHERE "@;
    let n = "bp_new.import_id = ?"@;
    let e = " AND bp_new.price_usd IS NOT NULL AND bp_old.price_usd IS NOT NULL AND bp_new.price_usd >= 0.25 AND bp_new.price_usd != bp_old.price_usd"@;
    reveal_strlit("SELECT bc.name, bc.set_code, bc.scryfall_id, bp_new.price_usd AS price_new, bp_old.price_usd AS price_old, (bp_new.price_usd - bp_old.price_usd) AS delta, CASE WHEN bp_old.price_usd > 0 THEN (bp_new.price_usd - bp_old.price_usd) / bp_old.price_usd * 100 ELSE 0 END AS pct FROM bulk_prices bp_new JOIN bulk_prices bp_old ON bp_old.scryfall_id = bp_new.scryfall_id AND bp_old.import_id = ? JOIN scryfall_bulk_cards bc ON bc.scryfall_id = bp_new.scryfall_id WHERE bp_new.import_id = ? AND bp_new.price_usd IS NOT NULL AND bp_old.price_usd IS NOT NULL AND bp_new.price_usd >= 0.25 AND bp_new.price_usd != bp_old.price_usd");
    reveal_strlit("SELECT bc.name, bc.set_code, bc.scryfall_id, bp_new.price_usd AS price_new, bp_old.price_usd AS price_old, ");
    reveal_strlit("(bp_new.price_usd - bp_old.price_usd) AS delta");
    reveal_strlit(", CASE WHEN bp_old.price_usd > 0 THEN (bp_new.price_usd - bp_old.price_usd) / bp_old.price_usd * 100 ELSE 0 END AS pct FROM bulk_prices bp_new JOIN bulk_prices bp_old ON bp_old.scryfall_id = bp_new.scryfall_id AND ");
    reveal_strlit("bp_old.import_id = ?");
    reveal_strlit(" JOIN scryfall_bulk_cards bc ON bc.scryfall_id = bp_new.scryfall_id WHERE ");
    reveal_strlit("bp_new.import_id = ?");
    reveal_strlit(" AND bp_new.price_usd IS NOT NULL AND bp_old.price_usd IS NOT NULL AND bp_new.price_usd >= 0.25 AND bp_new.price_usd != bp_old.price_usd");
    assert(movers_base_sql() =~= a + d + b + o + c + n + e);
    let tail = (if set_filtered { " AND bc.set_code = ?"@ } else { Seq::<char>::empty() }) + (if rising {
        " ORDER BY delta DESC LIMIT 25"@
    } else {
        " ORDER BY delta ASC LIMIT 25"@
    });
    assert(q =~= a + d + (b + o + c + n + e + tail));
    lemma_occurs_between(a, d, b + o + c + n + e + tail);
    let a2 = a + d + b;
    assert(!a2.contains('?')) by {
        if a2.contains('?') {
            let k = choose|k: int| 0 <= k < a2.len() && a2[k] == '?';
            if k < a.len() {
                assert(a[k] == '?');
            } else if k < a.len() + d.len() {
                assert(d[k - a.len()] == '?');
            } else {
                assert(b[k - a.len() - d.len()] == '?');
            }
        }
    }
    assert(q =~= a2 + o + c + n + (e + tail));
    let last = if rising { " ORDER BY delta DESC LIMIT 25"@ } else { " ORDER BY delta ASC LIMIT 25"@ };
    let front = movers_base_sql() + (if set_filtered { " AND bc.set_code = ?"@ } else { Seq::<char>::empty() });
    assert(q =~= front + last);
    assert(q.subrange(q.len() - last.len(), q.len() as int) =~= last);
}

/// The text filters of a price search, trimmed, and the `LIKE` pattern
/// of the name fragment.
pub struct SearchTerms {
    pub q: String,
    pub set: String,
    pub rarity: String,
    pub like_q: String,
}

/// An optional query parameter, trimmed (empty when missing).
pub open spec fn trimmed_param(v: Option<String>) -> Seq<char> {
    match v {
        Some(s) => trim_seq(s@),
        None => Seq::<char>::empty(),
    }
}

fn trimmed(v: &Option<String>) -> (res: String)
    ensures
        res@ == trimmed_param(*v),
{
    match v {
        Some(s) => trim(s.as_str()),
        None => String::new(),
    }
}

/// The terms of a price search: none (an empty answer) when the name
/// fragment, set and rarity are all blank, so that a search never lists
/// the whole card database.
pub fn search_terms(q: &Option<String>, set: &Option<String>, rarity: &Option<String>) -> (res: Option<SearchTerms>)
    ensures
        match res {
            Some(t) => {
                &&& t.q@ == trimmed_param(*q)
                &&& t.set@ == trimmed_param(*set)
                &&& t.rarity@ == trimmed_param(*rarity)
                &&& t.like_q@ == "%"@ + trimmed_param(*q) + "%"@
                &&& (t.q@.len() > 0 || t.set@.len() > 0 || t.rarity@.len() > 0)
            },
            None => trimmed_param(*q).len() == 0 && trimmed_param(*set).len() == 0
                && trimmed_param(*rarity).len() == 0,
        },
{
    let tq: String = trimmed(q);
    let ts: String = trimmed(set);
    let tr: String = trimmed(rarity);
    if tq.as_str().unicode_len() == 0 && ts.as_str().unicode_len() == 0
        && tr.as_str().unicode_len() == 0 {
        return None;
    }
    let mut like: String = "%".to_owned();
    like.append(tq.as_str());
    like.append("%");
    Some(SearchTerms { q: tq, set: ts, rarity: tr, like_q: like })
}

} // verus!
