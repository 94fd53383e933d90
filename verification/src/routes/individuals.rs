//! The list of tracked singles and its filters.
use vstd::prelude::*;
use crate::routes::inventory::passes_exact;
use crate::text::{
    ascii_lower, contains, has_substring, is_ascii_seq, lowercase, same_text, to_lowercase,
};

verus! {

/// The filters of the singles page.
pub struct IndividualsQuery {
    pub status: Option<String>,
    pub q: Option<String>,
}

/// What the singles filters read of a single.
pub struct IndividualKey {
    pub id: String,
    pub name: String,
    pub status: String,
}

/// A search term that is set and not empty must occur, ignoring case,
/// in the card name or in the single's ID.
pub open spec fn passes_name_or_id(q: Option<String>, k: IndividualKey) -> bool {
    match q {
        Some(t) => t@.len() == 0 || has_substring(lowercase(k.name@), lowercase(t@))
            || has_substring(lowercase(k.id@), lowercase(t@)),
        None => true,
    }
}

/// Whether a single is shown under the page's filters.
pub open spec fn individual_matches(p: IndividualsQuery, k: IndividualKey) -> bool {
    passes_name_or_id(p.q, k) && passes_exact(p.status, k.status@)
}

/// The positions, in order, of the first `n` singles that match.
pub open spec fn matching_individuals(p: IndividualsQuery, rows: Seq<IndividualKey>, n: nat) -> Seq<int>
    decreases n,
{
    if n == 0 {
        Seq::<int>::empty()
    } else {
        let rest = matching_individuals(p, rows, (n - 1) as nat);
        if individual_matches(p, rows[n - 1]) {
            rest.push(n - 1)
        } else {
            rest
        }
    }
}

/// Law: with no search term and no status (or empty ones), the page
/// lists every single, in order.
pub proof fn law_blank_filters_list_every_single(p: IndividualsQuery, rows: Seq<IndividualKey>, n: nat)
    requires
        p.q matches Some(t) ==> t@.len() == 0,
        p.status matches Some(s) ==> s@.len() == 0,
        n <= rows.len(),
    ensures
        matching_individuals(p, rows, n) == Seq::new(n, |i: int| i),
    decreases n,
{
    if n > 0 {
        law_blank_filters_list_every_single(p, rows, (n - 1) as nat);
        assert(individual_matches(p, rows[n - 1]));
        assert(Seq::new((n - 1) as nat, |i: int| i).push(n - 1) =~= Seq::new(n, |i: int| i));
    } else {
        assert(Seq::new(0, |i: int| i) =~= Seq::<int>::empty());
    }
}

/// Law: with a search term `t` that is set and not empty, a single whose
/// status passes the status filter is shown exactly when `t`, lower-cased,
/// occurs in its lower-cased card name or in its lower-cased ID; in
/// particular a match in the name shows it whatever its ID is. With ASCII
/// text this is a match of `to_ascii_lowercase` forms. A single whose
/// status does not pass the status filter is never shown.
pub proof fn law_search_by_name_or_id(p: IndividualsQuery, k: IndividualKey)
    ensures
        p.q matches Some(t) ==> (t@.len() > 0 && passes_exact(p.status, k.status@) ==> (
        individual_matches(p, k) <==> (has_substring(lowercase(k.name@), lowercase(t@))
            || has_substring(lowercase(k.id@), lowercase(t@))))),
        p.q matches Some(t) ==> (has_substring(lowercase(k.name@), lowercase(t@)) && passes_exact(
            p.status,
            k.status@,
        ) ==> individual_matches(p, k)),
        p.q matches Some(t) ==> (has_substring(lowercase(k.id@), lowercase(t@)) && passes_exact(
            p.status,
            k.status@,
        ) ==> individual_matches(p, k)),
        p.q matches Some(t) ==> (is_ascii_seq(t@) && is_ascii_seq(k.name@) && has_substring(
            ascii_lower(k.name@),
            ascii_lower(t@),
        ) && passes_exact(p.status, k.status@) ==> individual_matches(p, k)),
        !passes_exact(p.status, k.status@) ==> !individual_matches(p, k),
{
}

/// Law: among the first `n` singles, the page lists a position exactly
/// when the single there matches the filters.
pub proof fn law_listed_exactly_when_matching(p: IndividualsQuery, rows: Seq<IndividualKey>, n: nat, i: int)
    requires
        n <= rows.len(),
        0 <= i < n,
    ensures
        matching_individuals(p, rows, n).contains(i) <==> individual_matches(p, rows[i]),
    decreases n,
{
    let rest = matching_individuals(p, rows, (n - 1) as nat);
    lemma_matching_below(p, rows, (n - 1) as nat);
    if i < n - 1 {
        law_listed_exactly_when_matching(p, rows, (n - 1) as nat, i);
        if individual_matches(p, rows[n - 1]) {
            assert(rest.push(n - 1).contains(i) <==> rest.contains(i)) by {
                let pushed = rest.push(n - 1);
                if pushed.contains(i) {
                    let j = choose|j: int| 0 <= j < pushed.len() && #[trigger] pushed[j] == i;
                    if j < rest.len() {
                        assert(rest[j] == i);
                    }
                }
                if rest.contains(i) {
                    let j = choose|j: int| 0 <= j < rest.len() && rest[j] == i;
                    assert(rest.push(n - 1)[j] == i);
                }
            }
        }
    } else {
        if individual_matches(p, rows[n - 1]) {
            assert(rest.push(n - 1)[rest.len() as int] == n - 1);
        } else {
            if rest.contains(i) {
                let j = choose|j: int| 0 <= j < rest.len() && rest[j] == i;
            }
        }
    }
}

/// The positions listed among the first `n` singles are below `n`.
proof fn lemma_matching_below(p: IndividualsQuery, rows: Seq<IndividualKey>, n: nat)
    ensures
        forall|j: int| 0 <= j < matching_individuals(p, rows, n).len() ==> #[trigger] matching_individuals(p, rows, n)[j] < n,
    decreases n,
{
    if n > 0 {
        lemma_matching_below(p, rows, (n - 1) as nat);
        let rest = matching_individuals(p, rows, (n - 1) as nat);
        if individual_matches(p, rows[n - 1]) {
            assert forall|j: int| 0 <= j < rest.push(n - 1).len() implies #[trigger] rest.push(n - 1)[j] < n by {
                if j < rest.len() {
                    assert(rest.push(n - 1)[j] == rest[j]);
                }
            }
        }
    }
}

/// Whether a single passes the search term and the status filter.
pub fn individual_row_matches(params: &IndividualsQuery, row: &IndividualKey) -> (res: bool)
    ensures
        res == individual_matches(*params, *row),
{
    let name_ok: bool = match &params.q {
        Some(t) => {
            if t.as_str().unicode_len() == 0 {
                true
            } else {
                let q_lower: String = to_lowercase(t.as_str());
                let name_lower: String = to_lowercase(row.name.as_str());
                let id_lower: String = to_lowercase(row.id.as_str());
                contains(name_lower.as_str(), q_lower.as_str()) || contains(
                    id_lower.as_str(),
                    q_lower.as_str(),
                )
            }
        },
        None => true,
    };
    let status_ok: bool = match &params.status {
        Some(s) => s.as_str().unicode_len() == 0 || same_text(row.status.as_str(), s.as_str()),
        None => true,
    };
    name_ok && status_ok
}

/// The positions of the singles that the page shows, in order.
pub fn filter_individuals(params: &IndividualsQuery, rows: &Vec<IndividualKey>) -> (res: Vec<usize>)
    ensures
        res@.map_values(|i: usize| i as int) == matching_individuals(*params, rows@, rows.len() as nat),
{
    let mut res: Vec<usize> = Vec::new();
    let mut i: usize = 0;
    while i < rows.len()
        invariant
            i <= rows.len(),
            res@.map_values(|i: usize| i as int) == matching_individuals(*params, rows@, i as nat),
        decreases rows.len() - i,
    {
        let ghost before = res@.map_values(|i: usize| i as int);
        if individual_row_matches(params, &rows[i]) {
            res.push(i);
            assert(res@.map_values(|i: usize| i as int) =~= before.push(i as int));
        }
        i = i + 1;
    }
    res
}

} // verus!
