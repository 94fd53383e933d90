//! Scryfall bulk data import: which `*.json.gz` files in the data
//! directory still need importing and in what order, and how the cards
//! of one file are split into batches.
use vstd::prelude::*;
use vstd::seq_lib::group_to_multiset_ensures;
use crate::text::{chars_of, ends_with, has_suffix, same_text};

verus! {

// ───────────────────────────── ordering file names ──────────────────────────

/// Lexicographic order of strings by code point, which is the byte order
/// of their UTF-8 encoding and the order of file names in one directory.
pub open spec fn lex_lt(a: Seq<char>, b: Seq<char>) -> bool
    decreases a.len(),
{
    if a.len() == 0 {
        b.len() > 0
    } else if b.len() == 0 {
        false
    } else if a[0] != b[0] {
        a[0] < b[0]
    } else {
        lex_lt(a.drop_first(), b.drop_first())
    }
}

/// Each name comes no earlier than the ones after it.
pub open spec fn sorted_desc(s: Seq<Seq<char>>) -> bool {
    forall|i: int, j: int| 0 <= i < j < s.len() ==> !lex_lt(#[trigger] s[i], #[trigger] s[j])
}

proof fn lemma_lex_asym(a: Seq<char>, b: Seq<char>)
    ensures
        !(lex_lt(a, b) && lex_lt(b, a)),
    decreases a.len(),
{
    if a.len() > 0 && b.len() > 0 && a[0] == b[0] {
        lemma_lex_asym(a.drop_first(), b.drop_first());
    }
}

proof fn lemma_lex_trans(a: Seq<char>, b: Seq<char>, c: Seq<char>)
    requires
        lex_lt(a, b),
        lex_lt(b, c),
    ensures
        lex_lt(a, c),
    decreases a.len(),
{
    if a.len() > 0 && b.len() > 0 && c.len() > 0 && a[0] == b[0] && b[0] == c[0] {
        lemma_lex_trans(a.drop_first(), b.drop_first(), c.drop_first());
    }
}

proof fn lemma_lex_total(a: Seq<char>, b: Seq<char>)
    ensures
        a != b ==> lex_lt(a, b) || lex_lt(b, a),
    decreases a.len(),
{
    if a.len() > 0 && b.len() > 0 && a[0] == b[0] {
        lemma_lex_total(a.drop_first(), b.drop_first());
        if a.drop_first() == b.drop_first() {
            assert(a =~= seq![a[0]] + a.drop_first());
            assert(b =~= seq![b[0]] + b.drop_first());
        }
    } else if a.len() == 0 && b.len() == 0 {
        assert(a =~= b);
    }
}

/// Whether `a` comes before `b` in code point order.
pub fn lex_less(a: &Vec<char>, b: &Vec<char>) -> (res: bool)
    ensures
        res == lex_lt(a@, b@),
{
    let mut i: usize = 0;
    assert(a@.subrange(0, a.len() as int) =~= a@);
    assert(b@.subrange(0, b.len() as int) =~= b@);
    while i < a.len() && i < b.len() && a[i] == b[i]
        invariant
            i <= a.len(),
            i <= b.len(),
            lex_lt(a@, b@) == lex_lt(a@.subrange(i as int, a.len() as int), b@.subrange(i as int, b.len() as int)),
        decreases a.len() - i,
    {
        let ghost x = a@.subrange(i as int, a.len() as int);
        let ghost y = b@.subrange(i as int, b.len() as int);
        assert(x.drop_first() =~= a@.subrange(i + 1, a.len() as int));
        assert(y.drop_first() =~= b@.subrange(i + 1, b.len() as int));
        i = i + 1;
    }
    let ghost x = a@.subrange(i as int, a.len() as int);
    let ghost y = b@.subrange(i as int, b.len() as int);
    if i == a.len() {
        i < b.len()
    } else if i == b.len() {
        false
    } else {
        assert(x[0] == a@[i as int] && y[0] == b@[i as int]);
        a[i] < b[i]
    }
}

// ───────────────────────────── choosing files ───────────────────────────────

/// Whether `name` is among the views of `names`.
pub open spec fn listed(names: Seq<String>, name: Seq<char>) -> bool {
    exists|i: int| 0 <= i < names.len() && #[trigger] names[i]@ == name
}

/// Bulk data files carry this suffix.
pub open spec fn is_bulk_file(name: Seq<char>) -> bool {
    has_suffix(name, ".json.gz"@)
}

/// The names, in their order, of bulk data files not yet imported.
pub open spec fn pending_files(names: Seq<String>, imported: Seq<String>) -> Seq<Seq<char>>
    decreases names.len(),
{
    if names.len() == 0 {
        Seq::<Seq<char>>::empty()
    } else {
        let rest = pending_files(names.drop_last(), imported);
        let n = names.last()@;
        if is_bulk_file(n) && !listed(imported, n) {
            rest.push(n)
        } else {
            rest
        }
    }
}

fn is_listed(names: &Vec<String>, name: &str) -> (res: bool)
    ensures
        res == listed(names@, name@),
{
    let mut i: usize = 0;
    while i < names.len()
        invariant
            i <= names.len(),
            forall|k: int| 0 <= k < i ==> #[trigger] names@[k]@ != name@,
        decreases names.len() - i,
    {
        if same_text(names[i].as_str(), name) {
            return true;
        }
        i = i + 1;
    }
    false
}

/// Inserts `x` into the descending list `out` after every name that is
/// not smaller than it.
fn insert_desc(out: &mut Vec<String>, x: String)
    requires
        sorted_desc(old(out)@.map_values(|s: String| s@)),
    ensures
        sorted_desc(final(out)@.map_values(|s: String| s@)),
        final(out)@.map_values(|s: String| s@).to_multiset() == old(out)@.map_values(
            |s: String| s@,
        ).to_multiset().insert(x@),
{
    broadcast use group_to_multiset_ensures;

    let ghost before = out@.map_values(|s: String| s@);
    let xc: Vec<char> = chars_of(x.as_str());
    let mut p: usize = 0;
    while p < out.len() && !lex_less(&chars_of(out[p].as_str()), &xc)
        invariant
            p <= out.len(),
            before == out@.map_values(|s: String| s@),
            xc@ == x@,
            forall|k: int| 0 <= k < p ==> !lex_lt(#[trigger] before[k], x@),
        decreases out.len() - p,
    {
        p = p + 1;
    }
    assert(p < out.len() ==> lex_lt(before[p as int], x@));
    out.insert(p, x);
    let ghost after = out@.map_values(|s: String| s@);
    assert(after =~= before.insert(p as int, x@));
    assert forall|i: int, j: int| 0 <= i < j < after.len() implies !lex_lt(
        #[trigger] after[i],
        #[trigger] after[j],
    ) by {
        if j < p {
            assert(after[i] == before[i] && after[j] == before[j]);
        } else if j == p {
            assert(after[i] == before[i]);
        } else if i < p {
            assert(after[i] == before[i] && after[j] == before[j - 1]);
            if lex_lt(before[i], before[j - 1]) {
                lemma_lex_asym(before[i], before[j - 1]);
            }
        } else if i == p {
            assert(after[j] == before[j - 1]);
            if lex_lt(x@, before[j - 1]) {
                if j - 1 == p {
                    lemma_lex_asym(x@, before[p as int]);
                } else {
                    lemma_lex_trans(before[p as int], x@, before[j - 1]);
                }
            }
        } else {
            assert(after[i] == before[i - 1] && after[j] == before[j - 1]);
        }
    }
}

/// The bulk data files still to import, newest first: of the names in
/// the data directory, those ending in `.json.gz` that are not among
/// `imported`, in descending name order (dated file names sort by date).
pub fn select_new_files(names: &Vec<String>, imported: &Vec<String>) -> (res: Vec<String>)
    ensures
        sorted_desc(res@.map_values(|s: String| s@)),
        res@.map_values(|s: String| s@).to_multiset() == pending_files(names@, imported@).to_multiset(),
        forall|i: int| 0 <= i < res.len() ==> is_bulk_file(#[trigger] res@[i]@) && !listed(imported@, res@[i]@),
{
    broadcast use group_to_multiset_ensures;

    let mut out: Vec<String> = Vec::new();
    let mut i: usize = 0;
    assert(names@.subrange(0, 0) =~= Seq::<String>::empty());
    assert(out@.map_values(|s: String| s@) =~= Seq::<Seq<char>>::empty());
    while i < names.len()
        invariant
            i <= names.len(),
            sorted_desc(out@.map_values(|s: String| s@)),
            out@.map_values(|s: String| s@).to_multiset() == pending_files(
                names@.subrange(0, i as int),
                imported@,
            ).to_multiset(),
        decreases names.len() - i,
    {
        let ghost pre = names@.subrange(0, i as int);
        let ghost nxt = names@.subrange(0, i + 1);
        assert(nxt.drop_last() =~= pre);
        let name: &String = &names[i];
        assert(nxt.last() == *name);
        if ends_with(name.as_str(), ".json.gz") && !is_listed(imported, name.as_str()) {
            let copy: String = name.clone();
            assert(copy@ == name@);
            let ghost before = out@.map_values(|s: String| s@).to_multiset();
            insert_desc(&mut out, copy);
            assert(pending_files(nxt, imported@) == pending_files(pre, imported@).push(name@));
            proof {
                vstd::seq_lib::to_multiset_build(pending_files(pre, imported@), name@);
            }
            assert(out@.map_values(|s: String| s@).to_multiset() == before.insert(name@));
        } else {
            assert(pending_files(nxt, imported@) == pending_files(pre, imported@));
        }
        i = i + 1;
    }
    assert(names@.subrange(0, names.len() as int) =~= names@);
    proof {
        lemma_pending_shape(names@, imported@);
        assert forall|i: int| 0 <= i < out.len() implies is_bulk_file(#[trigger] out@[i]@)
            && !listed(imported@, out@[i]@) by {
            let v = out@.map_values(|s: String| s@);
            assert(v[i] == out@[i]@);
            assert(v.to_multiset().count(v[i]) > 0);
            let p = pending_files(names@, imported@);
            assert(p.to_multiset().count(v[i]) > 0);
            assert(p.contains(v[i]));
        }
    }
    out
}

proof fn lemma_pending_shape(names: Seq<String>, imported: Seq<String>)
    ensures
        forall|k: int| 0 <= k < pending_files(names, imported).len() ==> is_bulk_file(
            #[trigger] pending_files(names, imported)[k],
        ) && !listed(imported, pending_files(names, imported)[k]),
    decreases names.len(),
{
    if names.len() > 0 {
        lemma_pending_shape(names.drop_last(), imported);
        let rest = pending_files(names.drop_last(), imported);
        let p = pending_files(names, imported);
        assert forall|k: int| 0 <= k < p.len() implies is_bulk_file(#[trigger] p[k]) && !listed(
            imported,
            p[k],
        ) by {
            if k < rest.len() {
                assert(p[k] == rest[k]);
            }
        }
    }
}


/// Law: once every file that a scan selected is recorded as imported
/// (and nothing imported is forgotten), the next scan of the same
/// directory selects nothing: no file is imported twice.
pub proof fn law_rescan_selects_nothing(names: Seq<String>, imported: Seq<String>, after: Seq<String>)
    requires
        forall|n: Seq<char>| listed(imported, n) ==> listed(after, n),
        forall|k: int|
            0 <= k < pending_files(names, imported).len() ==> listed(
                after,
                #[trigger] pending_files(names, imported)[k],
            ),
    ensures
        pending_files(names, after).len() == 0,
    decreases names.len(),
{
    if names.len() > 0 {
        let rest = pending_files(names.drop_last(), imported);
        let n = names.last()@;
        assert forall|k: int| 0 <= k < rest.len() implies listed(after, #[trigger] rest[k]) by {
            let p = pending_files(names, imported);
            assert(p[k] == rest[k]);
        }
        law_rescan_selects_nothing(names.drop_last(), imported, after);
        if is_bulk_file(n) && !listed(imported, n) {
            let p = pending_files(names, imported);
            assert(p[p.len() - 1] == n);
        }
    }
}

// ───────────────────────────── batches ──────────────────────────────────────

/// Cards of one file are written in transactions of this many cards.
pub open spec fn batch_size_spec() -> nat {
    500
}

/// The number of cards written per transaction.
pub fn bulk_batch_size() -> (res: usize)
    ensures
        res == batch_size_spec(),
{
    500
}

/// The consecutive ranges `[start, end)` of at most `size` positions that
/// cover `start..total`, as `chunks(size)` cuts a slice.
pub open spec fn batch_ranges(start: nat, total: nat, size: nat) -> Seq<(nat, nat)>
    decreases total - start,
{
    if size == 0 || start >= total {
        Seq::<(nat, nat)>::empty()
    } else {
        let end = if total - start <= size { total } else { start + size };
        seq![(start, end)] + batch_ranges(end, total, size)
    }
}

/// The ranges of positions that `chunks(size)` makes of `total` items.
pub fn batch_bounds(total: usize, size: usize) -> (res: Vec<(usize, usize)>)
    requires
        size > 0,
    ensures
        res@.map_values(|r: (usize, usize)| (r.0 as nat, r.1 as nat)) == batch_ranges(
            0,
            total as nat,
            size as nat,
        ),
{
    let mut res: Vec<(usize, usize)> = Vec::new();
    let mut start: usize = 0;
    while start < total
        invariant
            size > 0,
            start <= total,
            res@.map_values(|r: (usize, usize)| (r.0 as nat, r.1 as nat)) + batch_ranges(
                start as nat,
                total as nat,
                size as nat,
            ) == batch_ranges(0, total as nat, size as nat),
        decreases total - start,
    {
        let end: usize = if total - start <= size { total } else { start + size };
        let ghost before = res@.map_values(|r: (usize, usize)| (r.0 as nat, r.1 as nat));
        res.push((start, end));
        assert(res@.map_values(|r: (usize, usize)| (r.0 as nat, r.1 as nat)) =~= before.push(
            (start as nat, end as nat),
        ));
        assert(before.push((start as nat, end as nat)) + batch_ranges(end as nat, total as nat, size as nat)
            =~= before + batch_ranges(start as nat, total as nat, size as nat));
        start = end;
    }
    assert(batch_ranges(start as nat, total as nat, size as nat) =~= Seq::<(nat, nat)>::empty());
    assert(res@.map_values(|r: (usize, usize)| (r.0 as nat, r.1 as nat)) + Seq::<(nat, nat)>::empty()
        =~= res@.map_values(|r: (usize, usize)| (r.0 as nat, r.1 as nat)));
    res
}

/// Only English printings are imported from the bulk files.
pub fn is_english(lang: &str) -> (res: bool)
    ensures
        res == (lang@ == "en"@),
{
    same_text(lang, "en")
}

} // verus!
