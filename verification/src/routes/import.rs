//! The CSV import page: choosing the importer for an upload and the HTML
//! fragments that report the outcome.
use vstd::prelude::*;
use crate::db::import::ImportResult;
use crate::text::{chars_of, contains, has_substring, occurs_at, push_char, trim, trim_seq};

verus! {

// ───────────────────────────── escaping ─────────────────────────────────────

/// What `html_escape` writes for one character.
pub open spec fn html_escape_char(c: char) -> Seq<char> {
    if c == '&' {
        seq!['&', 'a', 'm', 'p', ';']
    } else if c == '<' {
        seq!['&', 'l', 't', ';']
    } else if c == '>' {
        seq!['&', 'g', 't', ';']
    } else if c == '"' {
        seq!['&', 'q', 'u', 'o', 't', ';']
    } else {
        seq![c]
    }
}

/// `s` with `&`, `<`, `>` and `"` replaced by their HTML entities.
pub open spec fn html_escape_spec(s: Seq<char>) -> Seq<char>
    decreases s.len(),
{
    if s.len() == 0 {
        Seq::<char>::empty()
    } else {
        html_escape_spec(s.drop_last()) + html_escape_char(s.last())
    }
}

fn push_escaped(out: &mut String, c: char)
    ensures
        final(out)@ == old(out)@ + html_escape_char(c),
{
    if c == '&' {
        push_char(out, '&');
        push_char(out, 'a');
        push_char(out, 'm');
        push_char(out, 'p');
        push_char(out, ';');
    } else if c == '<' {
        push_char(out, '&');
        push_char(out, 'l');
        push_char(out, 't');
        push_char(out, ';');
    } else if c == '>' {
        push_char(out, '&');
        push_char(out, 'g');
        push_char(out, 't');
        push_char(out, ';');
    } else if c == '"' {
        push_char(out, '&');
        push_char(out, 'q');
        push_char(out, 'u');
        push_char(out, 'o');
        push_char(out, 't');
        push_char(out, ';');
    } else {
        push_char(out, c);
    }
    assert(final(out)@ =~= old(out)@ + html_escape_char(c));
}

/// Appends `s`, escaped, to `out`.
fn push_html_escaped(out: &mut String, s: &str)
    ensures
        final(out)@ == old(out)@ + html_escape_spec(s@),
{
    let cs: Vec<char> = chars_of(s);
    let mut i: usize = 0;
    assert(cs@.subrange(0, 0) =~= Seq::<char>::empty());
    while i < cs.len()
        invariant
            i <= cs.len(),
            cs@ == s@,
            out@ == old(out)@ + html_escape_spec(cs@.subrange(0, i as int)),
        decreases cs.len() - i,
    {
        let ghost pre = out@;
        push_escaped(out, cs[i]);
        assert(cs@.subrange(0, i + 1).drop_last() =~= cs@.subrange(0, i as int));
        i = i + 1;
    }
    assert(cs@.subrange(0, cs.len() as int) =~= cs@);
}

/// Replaces `&`, `<`, `>` and `"` by their HTML entities.
pub fn html_escape(s: &str) -> (res: String)
    ensures
        res@ == html_escape_spec(s@),
{
    let mut res: String = String::new();
    push_html_escaped(&mut res, s);
    assert(Seq::<char>::empty() + html_escape_spec(s@) =~= html_escape_spec(s@));
    res
}

/// Whether `c` would start or end markup inside an HTML page.
pub open spec fn is_markup_char(c: char) -> bool {
    c == '<' || c == '>' || c == '"'
}

/// Law: escaped text holds no `<`, `>` or `"`, so it cannot open a tag
/// or close an attribute.
pub proof fn law_escaped_has_no_markup(s: Seq<char>)
    ensures
        forall|i: int| 0 <= i < html_escape_spec(s).len() ==> !is_markup_char(
            #[trigger] html_escape_spec(s)[i],
        ),
    decreases s.len(),
{
    if s.len() > 0 {
        law_escaped_has_no_markup(s.drop_last());
        let a = html_escape_spec(s.drop_last());
        let b = html_escape_char(s.last());
        assert forall|i: int| 0 <= i < html_escape_spec(s).len() implies !is_markup_char(
            #[trigger] html_escape_spec(s)[i],
        ) by {
            if i < a.len() {
                assert(html_escape_spec(s)[i] == a[i]);
            } else {
                assert(html_escape_spec(s)[i] == b[i - a.len()]);
            }
        }
    }
}

/// Law: text without `&`, `<`, `>` and `"` is left as it is.
pub proof fn law_escape_plain_text(s: Seq<char>)
    requires
        forall|i: int| 0 <= i < s.len() ==> !is_markup_char(#[trigger] s[i]) && s[i] != '&',
    ensures
        html_escape_spec(s) == s,
    decreases s.len(),
{
    if s.len() > 0 {
        assert forall|i: int| 0 <= i < s.drop_last().len() implies !is_markup_char(
            #[trigger] s.drop_last()[i],
        ) && s.drop_last()[i] != '&' by {
            assert(s.drop_last()[i] == s[i]);
        }
        law_escape_plain_text(s.drop_last());
        assert(!is_markup_char(s[s.len() - 1]) && s[s.len() - 1] != '&');
        assert(s.drop_last().push(s.last()) =~= s);
    }
}


/// `str::replace(pat, rep)` for a non-empty `pat`: scanning from the left,
/// each occurrence of `pat` that does not overlap an earlier one is
/// replaced by `rep`.
pub open spec fn replace_all(s: Seq<char>, pat: Seq<char>, rep: Seq<char>) -> Seq<char>
    decreases s.len(),
{
    if s.len() == 0 {
        Seq::<char>::empty()
    } else if 0 < pat.len() <= s.len() && s.subrange(0, pat.len() as int) == pat {
        rep + replace_all(s.subrange(pat.len() as int, s.len() as int), pat, rep)
    } else {
        seq![s[0]] + replace_all(s.drop_first(), pat, rep)
    }
}

/// Undoing the escape with `str::replace`: `&quot;`, `&gt;`, `&lt;` and
/// then `&amp;` replaced by the characters they stand for, in that order.
pub open spec fn html_unescape_spec(s: Seq<char>) -> Seq<char> {
    replace_all(
        replace_all(replace_all(replace_all(s, "&quot;"@, "\""@), "&gt;"@, ">"@), "&lt;"@, "<"@),
        "&amp;"@,
        "&"@,
    )
}

/// What the character `c` stands as after `stage` of the four
/// replacements that undo the escape have run (`&quot;`, `&gt;`, `&lt;`,
/// then `&amp;`): its entity until the replacement for it has run, then
/// the character itself.
pub open spec fn unescape_piece(stage: nat, c: char) -> Seq<char> {
    if stage >= 4 || (stage >= 1 && c == '"') || (stage >= 2 && c == '>') || (stage >= 3 && c
        == '<') {
        seq![c]
    } else {
        html_escape_char(c)
    }
}

/// The entity that the replacement at `stage` undoes.
pub open spec fn unescape_pattern(stage: nat) -> Seq<char> {
    if stage == 0 {
        seq!['&', 'q', 'u', 'o', 't', ';']
    } else if stage == 1 {
        seq!['&', 'g', 't', ';']
    } else if stage == 2 {
        seq!['&', 'l', 't', ';']
    } else {
        seq!['&', 'a', 'm', 'p', ';']
    }
}

/// The character that the replacement at `stage` writes.
pub open spec fn unescape_char(stage: nat) -> char {
    if stage == 0 {
        '"'
    } else if stage == 1 {
        '>'
    } else if stage == 2 {
        '<'
    } else {
        '&'
    }
}

/// The pieces of the characters of `s` after `stage` replacements, joined.
pub open spec fn join_pieces(s: Seq<char>, stage: nat) -> Seq<char>
    decreases s.len(),
{
    if s.len() == 0 {
        Seq::<char>::empty()
    } else {
        unescape_piece(stage, s[0]) + join_pieces(s.drop_first(), stage)
    }
}

/// Whether `y` holds no `&`.
pub open spec fn no_amp(y: Seq<char>) -> bool {
    forall|k: int| 0 <= k < y.len() ==> #[trigger] y[k] != '&'
}

proof fn lemma_join_push(s: Seq<char>, c: char, stage: nat)
    ensures
        join_pieces(s.push(c), stage) == join_pieces(s, stage) + unescape_piece(stage, c),
    decreases s.len(),
{
    assert(s.push(c)[0] == (if s.len() == 0 { c } else { s[0] }));
    if s.len() == 0 {
        assert(s.push(c).drop_first() =~= Seq::<char>::empty());
        assert(join_pieces(s.push(c).drop_first(), stage) == Seq::<char>::empty());
        assert(join_pieces(s, stage) == Seq::<char>::empty());
        assert(unescape_piece(stage, c) + Seq::<char>::empty() =~= unescape_piece(stage, c));
        assert(Seq::<char>::empty() + unescape_piece(stage, c) =~= unescape_piece(stage, c));
    } else {
        assert(s.push(c).drop_first() =~= s.drop_first().push(c));
        lemma_join_push(s.drop_first(), c, stage);
        assert(join_pieces(s.push(c), stage) == unescape_piece(stage, s[0]) + join_pieces(
            s.drop_first().push(c),
            stage,
        ));
        assert(unescape_piece(stage, s[0]) + (join_pieces(s.drop_first(), stage) + unescape_piece(
            stage,
            c,
        )) =~= (unescape_piece(stage, s[0]) + join_pieces(s.drop_first(), stage))
            + unescape_piece(stage, c));
    }
}

proof fn lemma_escape_joined(s: Seq<char>)
    ensures
        html_escape_spec(s) == join_pieces(s, 0),
    decreases s.len(),
{
    if s.len() > 0 {
        lemma_escape_joined(s.drop_last());
        lemma_join_push(s.drop_last(), s.last(), 0);
        assert(s.drop_last().push(s.last()) =~= s);
    }
}

/// Text without `&` passes through a replacement of a pattern that starts
/// with `&` unchanged.
proof fn lemma_replace_plain(y: Seq<char>, rest: Seq<char>, pat: Seq<char>, rep: Seq<char>)
    requires
        pat.len() > 0,
        pat[0] == '&',
        no_amp(y),
    ensures
        replace_all(y + rest, pat, rep) == y + replace_all(rest, pat, rep),
    decreases y.len(),
{
    if y.len() == 0 {
        assert(y + rest =~= rest);
        assert(y + replace_all(rest, pat, rep) =~= replace_all(rest, pat, rep));
    } else {
        let t = y + rest;
        assert(t[0] == y[0]);
        assert(y[0] != '&');
        if 0 < pat.len() <= t.len() {
            assert(t.subrange(0, pat.len() as int)[0] == y[0]);
        }
        assert(t.drop_first() =~= y.drop_first() + rest);
        assert(no_amp(y.drop_first())) by {
            assert forall|k: int| 0 <= k < y.drop_first().len() implies #[trigger] y.drop_first()[k]
                != '&' by {
                assert(y.drop_first()[k] == y[k + 1]);
            }
        }
        lemma_replace_plain(y.drop_first(), rest, pat, rep);
        assert(seq![y[0]] + (y.drop_first() + replace_all(rest, pat, rep)) =~= y + replace_all(
            rest,
            pat,
            rep,
        ));
    }
}

/// The piece of one character at a stage: a single character other than
/// `&`, or an entity with no second `&` that either is the pattern of the
/// stage or differs from it in its second character; the next stage turns
/// exactly the pattern into its character.
proof fn lemma_piece_step(stage: nat, c: char)
    requires
        stage < 4,
    ensures
        ({
            let x = unescape_piece(stage, c);
            let pat = unescape_pattern(stage);
            &&& x.len() >= 1
            &&& x[0] != '&' ==> x.len() == 1
            &&& x[0] == '&' ==> no_amp(x.drop_first())
            &&& x[0] == '&' ==> (x == pat || (x.len() >= 2 && x[1] != pat[1]))
            &&& unescape_piece(stage + 1, c) == (if x == pat {
                seq![unescape_char(stage)]
            } else {
                x
            })
        }),
{
    let x = unescape_piece(stage, c);
    assert forall|k: int| 0 <= k < x.drop_first().len() implies #[trigger] x.drop_first()[k]
        != '&' by {
        assert(x.drop_first()[k] == x[k + 1]);
    }
    if x == unescape_pattern(stage) {
        assert(x[1] == unescape_pattern(stage)[1]);
    }
}

/// Replacing the pattern of a stage in the joined pieces gives the pieces
/// of the next stage.
proof fn lemma_replace_joined(s: Seq<char>, stage: nat)
    requires
        stage < 4,
    ensures
        replace_all(join_pieces(s, stage), unescape_pattern(stage), seq![unescape_char(stage)])
            == join_pieces(s, stage + 1),
    decreases s.len(),
{
    if s.len() > 0 {
        let pat = unescape_pattern(stage);
        let rep = seq![unescape_char(stage)];
        let x = unescape_piece(stage, s[0]);
        let r = join_pieces(s.drop_first(), stage);
        let t = x + r;
        lemma_piece_step(stage, s[0]);
        lemma_replace_joined(s.drop_first(), stage);
        if x == pat {
            assert(t.subrange(0, pat.len() as int) =~= pat);
            assert(t.subrange(pat.len() as int, t.len() as int) =~= r);
        } else if x[0] != '&' {
            assert(no_amp(x));
            lemma_replace_plain(x, r, pat, rep);
        } else {
            assert(t[0] == '&');
            if 0 < pat.len() <= t.len() {
                assert(t.subrange(0, pat.len() as int)[1] == x[1]);
            }
            assert(t.drop_first() =~= x.drop_first() + r);
            lemma_replace_plain(x.drop_first(), r, pat, rep);
            assert(seq![x[0]] + (x.drop_first() + replace_all(r, pat, rep)) =~= x + replace_all(
                r,
                pat,
                rep,
            ));
        }
    }
}

proof fn lemma_join_final(s: Seq<char>)
    ensures
        join_pieces(s, 4) == s,
    decreases s.len(),
{
    if s.len() > 0 {
        lemma_join_final(s.drop_first());
        assert(seq![s[0]] + s.drop_first() =~= s);
    }
}

/// Law: undoing the escape by replacing `&quot;`, `&gt;`, `&lt;` and then
/// `&amp;` with the characters they stand for gives back the text.
pub proof fn law_unescape_roundtrip(s: Seq<char>)
    ensures
        html_unescape_spec(html_escape_spec(s)) == s,
{
    reveal_strlit("&quot;");
    reveal_strlit("&gt;");
    reveal_strlit("&lt;");
    reveal_strlit("&amp;");
    reveal_strlit("\"");
    reveal_strlit(">");
    reveal_strlit("<");
    reveal_strlit("&");
    assert("&quot;"@ =~= unescape_pattern(0));
    assert("&gt;"@ =~= unescape_pattern(1));
    assert("&lt;"@ =~= unescape_pattern(2));
    assert("&amp;"@ =~= unescape_pattern(3));
    assert("\""@ =~= seq![unescape_char(0)]);
    assert(">"@ =~= seq![unescape_char(1)]);
    assert("<"@ =~= seq![unescape_char(2)]);
    assert("&"@ =~= seq![unescape_char(3)]);
    lemma_escape_joined(s);
    lemma_replace_joined(s, 0);
    lemma_replace_joined(s, 1);
    lemma_replace_joined(s, 2);
    lemma_replace_joined(s, 3);
    lemma_join_final(s);
}

// ───────────────────────────── result fragments ─────────────────────────────

/// The list items of the report's messages, each escaped.
pub open spec fn error_items_html(errors: Seq<Seq<char>>) -> Seq<char>
    decreases errors.len(),
{
    if errors.len() == 0 {
        Seq::<char>::empty()
    } else {
        error_items_html(errors.drop_last()) + "<li>"@ + html_escape_spec(errors.last())
            + "</li>"@
    }
}

/// The warnings block: empty when there is no message.
pub open spec fn error_list_html(errors: Seq<Seq<char>>) -> Seq<char> {
    if errors.len() == 0 {
        Seq::<char>::empty()
    } else {
        "<div class=\"error-list\"><h4>Warnings / skipped rows</h4><ul>"@ + error_items_html(errors)
            + "</ul></div>"@
    }
}

/// The fragment that reports a finished import.
pub open spec fn success_html_spec(rows: nat, lots: nat, errors: Seq<Seq<char>>) -> Seq<char> {
    "<div class=\"import-result success\" style=\"margin-top:1.5rem\">\n  <p class=\"result-message\">Import complete \u{2014} "@
        + crate::text::decimal(rows) + " rows processed, "@ + crate::text::decimal(lots)
        + " lots upserted.</p>\n  "@ + error_list_html(errors)
        + "\n  <div class=\"result-actions\">\n    <a href=\"/inventory\" class=\"btn\">View Inventory</a>\n    <a href=\"/import\" class=\"btn btn-secondary\">Import Another</a>\n  </div>\n</div>"@
}

/// The fragment that reports a failed import.
pub open spec fn error_html_spec(msg: Seq<char>) -> Seq<char> {
    "<div class=\"import-result error\" style=\"margin-top:1.5rem\">\n  <p class=\"result-message\">Error: "@
        + html_escape_spec(msg)
        + "</p>\n  <div class=\"result-actions\">\n    <a href=\"/import\" class=\"btn btn-secondary\">Try Again</a>\n  </div>\n</div>"@
}

/// The HTML fragment for a finished import: the counts of rows and lots,
/// the escaped messages (if any), and links onwards.
pub fn success_html(r: ImportResult) -> (res: String)
    ensures
        res@ == success_html_spec(r@.rows, r@.lots, r@.errors),
{
    let mut res: String =
        "<div class=\"import-result success\" style=\"margin-top:1.5rem\">\n  <p class=\"result-message\">Import complete \u{2014} ".to_owned();
    crate::text::push_decimal(&mut res, r.rows_processed as u64);
    res.append(" rows processed, ");
    crate::text::push_decimal(&mut res, r.lots_upserted as u64);
    res.append(" lots upserted.</p>\n  ");
    let ghost errs = r@.errors;
    if r.errors.len() > 0 {
        res.append("<div class=\"error-list\"><h4>Warnings / skipped rows</h4><ul>");
        let ghost head = res@;
        let mut i: usize = 0;
        while i < r.errors.len()
            invariant
                i <= r.errors.len(),
                errs == r@.errors,
                res@ == head + error_items_html(errs.subrange(0, i as int)),
            decreases r.errors.len() - i,
        {
            res.append("<li>");
            push_html_escaped(&mut res, r.errors[i].as_str());
            res.append("</li>");
            assert(errs.subrange(0, i + 1).drop_last() =~= errs.subrange(0, i as int));
            assert(errs.subrange(0, i + 1).last() == r.errors[i as int]@);
            i = i + 1;
        }
        assert(errs.subrange(0, r.errors.len() as int) =~= errs);
        res.append("</ul></div>");
    }
    res.append(
        "\n  <div class=\"result-actions\">\n    <a href=\"/inventory\" class=\"btn\">View Inventory</a>\n    <a href=\"/import\" class=\"btn btn-secondary\">Import Another</a>\n  </div>\n</div>",
    );
    res
}

/// The HTML fragment for a failed import, with the escaped message.
pub fn error_html(msg: &str) -> (res: String)
    ensures
        res@ == error_html_spec(msg@),
{
    let mut res: String =
        "<div class=\"import-result error\" style=\"margin-top:1.5rem\">\n  <p class=\"result-message\">Error: ".to_owned();
    push_html_escaped(&mut res, msg);
    res.append(
        "</p>\n  <div class=\"result-actions\">\n    <a href=\"/import\" class=\"btn btn-secondary\">Try Again</a>\n  </div>\n</div>",
    );
    res
}

// ───────────────────────────── choosing the importer ────────────────────────

/// The characters before the first line break (`\n` or `\r\n`), or all
/// of `s` when it has none, as the first item of `str::lines`.
pub open spec fn until_newline(s: Seq<char>) -> Seq<char>
    decreases s.len(),
{
    if s.len() == 0 || s[0] == '\n' {
        Seq::<char>::empty()
    } else {
        seq![s[0]] + until_newline(s.drop_first())
    }
}

/// The first line of `s` as `s.lines().next().unwrap_or("")` gives it:
/// a `\r` before the first `\n` is not part of the line.
pub open spec fn first_line_spec(s: Seq<char>) -> Seq<char> {
    let p = until_newline(s);
    if p.len() < s.len() && p.len() > 0 && p.last() == '\r' {
        p.drop_last()
    } else {
        p
    }
}

proof fn lemma_until_newline(s: Seq<char>, k: int)
    requires
        0 <= k <= s.len(),
        forall|j: int| 0 <= j < k ==> #[trigger] s[j] != '\n',
        k == s.len() || s[k] == '\n',
    ensures
        until_newline(s) == s.subrange(0, k),
    decreases k,
{
    if k > 0 {
        assert forall|j: int| 0 <= j < k - 1 implies #[trigger] s.drop_first()[j] != '\n' by {
            assert(s.drop_first()[j] == s[j + 1]);
        }
        lemma_until_newline(s.drop_first(), k - 1);
        assert(seq![s[0]] + s.drop_first().subrange(0, k - 1) =~= s.subrange(0, k));
    } else {
        assert(s.subrange(0, 0) =~= Seq::<char>::empty());
    }
}

/// The first line of `s`, as `s.lines().next().unwrap_or("")` gives it.
pub fn first_line(s: &str) -> (res: String)
    ensures
        res@ == first_line_spec(s@),
{
    let cs: Vec<char> = chars_of(s);
    let mut k: usize = 0;
    while k < cs.len() && cs[k] != '\n'
        invariant
            k <= cs.len(),
            cs@ == s@,
            forall|j: int| 0 <= j < k ==> #[trigger] cs@[j] != '\n',
        decreases cs.len() - k,
    {
        k = k + 1;
    }
    proof {
        lemma_until_newline(cs@, k as int);
    }
    let end: usize = if k < cs.len() && k > 0 && cs[k - 1] == '\r' { k - 1 } else { k };
    let mut line: Vec<char> = Vec::new();
    let mut i: usize = 0;
    while i < end
        invariant
            end <= k <= cs.len(),
            i <= end,
            line@ == cs@.subrange(0, i as int),
        decreases end - i,
    {
        line.push(cs[i]);
        i = i + 1;
    }
    assert(end < k ==> cs@.subrange(0, k as int).drop_last() =~= cs@.subrange(0, end as int));
    crate::text::string_of(&line)
}

/// The two CSV exports that the import page reads.
#[derive(Debug, PartialEq, Eq)]
pub enum CsvFormat {
    CardSphere,
    ManaBox,
}

/// An upload is a CardSphere export when its header row names the
/// "Tradelist Count" or "Cardsphere ID" column; otherwise it is read as
/// a ManaBox export.
pub open spec fn is_cardsphere_spec(csv: Seq<char>) -> bool {
    has_substring(first_line_spec(csv), "Tradelist Count"@) || has_substring(
        first_line_spec(csv),
        "Cardsphere ID"@,
    )
}

/// Law: an upload is read as a CardSphere export exactly when its header
/// row contains "Tradelist Count" or "Cardsphere ID"; a header with
/// neither (as ManaBox writes it, with its "ManaBox ID" and "Scryfall ID"
/// columns) is read as a ManaBox export.
pub proof fn law_format_by_header(csv: Seq<char>)
    ensures
        (has_substring(first_line_spec(csv), "Tradelist Count"@) || has_substring(
            first_line_spec(csv),
            "Cardsphere ID"@,
        )) ==> is_cardsphere_spec(csv),
        !has_substring(first_line_spec(csv), "Tradelist Count"@) && !has_substring(
            first_line_spec(csv),
            "Cardsphere ID"@,
        ) ==> !is_cardsphere_spec(csv),
{
}

/// The header row of a ManaBox export.
pub open spec fn manabox_header() -> Seq<char> {
    "Name,Set code,Set name,Collector number,Foil,Rarity,Quantity,ManaBox ID,Scryfall ID,Purchase price,Misprint,Altered,Condition,Language,Purchase price currency"@
}

/// Law: the ManaBox export header names neither CardSphere column, so
/// an upload that starts with it is read as a ManaBox export.
pub proof fn law_manabox_header_is_manabox(csv: Seq<char>)
    requires
        first_line_spec(csv) == manabox_header(),
    ensures
        !is_cardsphere_spec(csv),
{
    reveal_strlit("Name,Set code,Set name,Collector number,Foil,Rarity,Quantity,ManaBox ID,Scryfall ID,Purchase price,Misprint,Altered,Condition,Language,Purchase price currency");
    reveal_strlit("Tradelist Count");
    reveal_strlit("Cardsphere ID");
    let h = manabox_header();
    assert forall|i: int| !occurs_at(h, "Tradelist Count"@, i) by {
        if occurs_at(h, "Tradelist Count"@, i) {
            assert(h.subrange(i, i + 15)[0] == 'T');
            assert(h.subrange(i, i + 15)[1] == 'r');
            assert(h[i] == 'T' && h[i + 1] == 'r');
        }
    }
    assert forall|i: int| !occurs_at(h, "Cardsphere ID"@, i) by {
        if occurs_at(h, "Cardsphere ID"@, i) {
            assert(h.subrange(i, i + 13)[2] == 'r');
            assert(h.subrange(i, i + 13)[3] == 'd');
            assert(h[i + 2] == 'r' && h[i + 3] == 'd');
        }
    }
}

/// Auto-detects the export format from the header row.
pub fn detect_format(csv: &str) -> (res: CsvFormat)
    ensures
        res == (if is_cardsphere_spec(csv@) {
            CsvFormat::CardSphere
        } else {
            CsvFormat::ManaBox
        }),
{
    let line: String = first_line(csv);
    if contains(line.as_str(), "Tradelist Count") || contains(line.as_str(), "Cardsphere ID") {
        CsvFormat::CardSphere
    } else {
        CsvFormat::ManaBox
    }
}

/// The text of the message for an upload without CSV data.
pub open spec fn no_csv_message() -> Seq<char> {
    "No CSV file provided."@
}

/// What the import page does with the uploaded `csv_file` field: a
/// missing or blank upload is answered with an error fragment, otherwise
/// the data is imported in the detected format.
pub fn choose_import(csv_data: Option<String>) -> (res: Result<(CsvFormat, String), String>)
    ensures
        match csv_data {
            Some(d) => if trim_seq(d@).len() > 0 {
                res matches Ok((f, c)) && c@ == d@ && f == (if is_cardsphere_spec(d@) {
                    CsvFormat::CardSphere
                } else {
                    CsvFormat::ManaBox
                })
            } else {
                res matches Err(h) && h@ == error_html_spec(no_csv_message())
            },
            None => res matches Err(h) && h@ == error_html_spec(no_csv_message()),
        },
{
    match csv_data {
        Some(d) => {
            let t: String = trim(d.as_str());
            if t.as_str().unicode_len() > 0 {
                let f: CsvFormat = detect_format(d.as_str());
                Ok((f, d))
            } else {
                Err(error_html("No CSV file provided."))
            }
        },
        None => Err(error_html("No CSV file provided.")),
    }
}

/// The fragment for an upload that could not be read.
pub fn upload_failed_html(detail: &str) -> (res: String)
    ensures
        res@ == error_html_spec("Failed to read upload: "@ + detail@),
{
    let mut msg: String = "Failed to read upload: ".to_owned();
    msg.append(detail);
    error_html(msg.as_str())
}

} // verus!
