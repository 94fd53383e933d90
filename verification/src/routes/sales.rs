//! Sales and invoices: invoice numbers, the number shown for a sale,
//! which items of a new sale are recorded, and the shipping label file.
use vstd::prelude::*;
use chrono::{TimeZone, Timelike};
use crate::clock::unix_now;
use crate::db::import::split_seq;
use crate::text::{
    all_digits, decimal, decimal_int, digit_value, digits_value, is_digit, lemma_decimal_reads_back,
    push_decimal, push_decimal_i64, trim, trim_seq,
};

verus! {

#[verifier::external_type_specification]
#[verifier::external_body]
pub struct ExNaiveDateTime(chrono::NaiveDateTime);

#[verifier::external_type_specification]
#[verifier::external_body]
pub struct ExFixedOffset(chrono::FixedOffset);

/// `DateTime::from_timestamp(secs, 0)`, taken as its UTC date and time
/// (`naive_utc`, which hands out the stored value): `None` where chrono
/// has no date for that many seconds since the epoch. Which date and time
/// it is, is not claimed.
#[verifier::external_body]
fn utc_at(secs: i64) -> Option<chrono::NaiveDateTime> {
    chrono::DateTime::from_timestamp(secs, 0).map(|t| t.naive_utc())
}

/// `Local.offset_from_utc_datetime(utc)`: the offset of the local time
/// zone from UTC at that moment, as chrono reads it from the system's
/// time-zone data (UTC where it finds none). Nothing is claimed of it.
#[verifier::external_body]
fn local_offset(utc: &chrono::NaiveDateTime) -> chrono::FixedOffset {
    chrono::Local.offset_from_utc_datetime(utc)
}

/// `NaiveDateTime::checked_add_offset`: the date and time moved by the
/// offset, `None` where that leaves chrono's range. Nothing more is
/// claimed.
#[verifier::external_body]
fn add_offset(t: &chrono::NaiveDateTime, offset: &chrono::FixedOffset) -> Option<chrono::NaiveDateTime> {
    t.checked_add_offset(*offset)
}

/// The local wall-clock date and time, to the second: the current Unix
/// time moved into the local time zone. `None` when the clock reads a time
/// before the Unix epoch or one that chrono cannot represent.
fn local_now() -> Option<chrono::NaiveDateTime> {
    let secs: i64 = match unix_now() {
        Some(s) => s,
        None => {
            return None;
        },
    };
    let utc: chrono::NaiveDateTime = match utc_at(secs) {
        Some(t) => t,
        None => {
            return None;
        },
    };
    let offset: chrono::FixedOffset = local_offset(&utc);
    add_offset(&utc, &offset)
}

/// `n` in decimal with at least `width` digits, zeros in front.
pub open spec fn zero_padded(n: nat, width: nat) -> Seq<char> {
    let d = decimal(n);
    if d.len() < width {
        Seq::new((width - d.len()) as nat, |i: int| '0') + d
    } else {
        d
    }
}

/// How chrono's `%Y` writes a year: four digits, zero-padded, for the
/// years 0 to 9999, and otherwise a sign in front of at least four digits.
pub open spec fn year_text(y: int) -> Seq<char> {
    if 0 <= y <= 9999 {
        zero_padded(y as nat, 4)
    } else if y < 0 {
        seq!['-'] + zero_padded((-y) as nat, 4)
    } else {
        seq!['+'] + zero_padded(y as nat, 4)
    }
}

/// A date as the pattern `%Y%m%d` writes it: the year, then the month
/// and the day as two digits each.
pub open spec fn ymd_text(y: int, month: nat, day: nat) -> Seq<char> {
    year_text(y) + zero_padded(month, 2) + zero_padded(day, 2)
}

/// Whether `s` is a date written by the pattern `%Y%m%d`: some year, a
/// month from 1 to 12 and a day from 1 to 31.
pub open spec fn is_ymd_text(s: Seq<char>) -> bool {
    exists|y: int, mo: nat, d: nat| 1 <= mo <= 12 && 1 <= d <= 31 && s == #[trigger] ymd_text(y, mo, d)
}

/// `NaiveDateTime::format(fmt)`, written out with `to_string`, for the
/// pattern `%Y%m%d` only: chrono writes the year with `%Y` (see
/// [`year_text`]) and the month (1 to 12) and the day (1 to 31) as two
/// digits each. Other patterns are not admitted: on an unsupported one
/// chrono's formatter fails and `to_string` panics. Which date of the
/// calendar it is, is not claimed.
#[verifier::external_body]
fn format_local(t: &chrono::NaiveDateTime, fmt: &str) -> (res: String)
    requires
        fmt@ == "%Y%m%d"@,
    ensures
        is_ymd_text(res@),
{
    t.format(fmt).to_string()
}

/// `Timelike::hour`: the hour of the local time, from 0 to 23 as
/// chrono documents it.
#[verifier::external_body]
fn local_hour(t: &chrono::NaiveDateTime) -> (res: u32)
    ensures
        res < 24,
{
    t.hour()
}

/// `Timelike::minute`: the minute of the local time, from 0 to 59 as
/// chrono documents it.
#[verifier::external_body]
fn local_minute(t: &chrono::NaiveDateTime) -> (res: u32)
    ensures
        res < 60,
{
    t.minute()
}

/// An invoice number: the local date as `YYYYMMDD`, a dash, and the
/// minutes since local midnight with at least three digits.
pub open spec fn invoice_id_spec(date: Seq<char>, hour: nat, minute: nat) -> Seq<char> {
    date + "-"@ + zero_padded(hour * 60 + minute, 3)
}

/// The number of decimal digits of `n`, for the small numbers.
proof fn lemma_decimal_len(n: nat)
    ensures
        n < 10 ==> decimal(n).len() == 1,
        10 <= n < 100 ==> decimal(n).len() == 2,
        100 <= n ==> decimal(n).len() >= 3,
    decreases n,
{
    if n >= 10 {
        lemma_decimal_len(n / 10);
    }
}

/// Appends `n` with at least three digits, zeros in front.
fn push_three_digits(out: &mut String, n: u64)
    ensures
        final(out)@ == old(out)@ + zero_padded(n as nat, 3),
{
    proof {
        lemma_decimal_len(n as nat);
        reveal_strlit("00");
        reveal_strlit("0");
    }
    let ghost before: Seq<char> = out@;
    if n < 10 {
        out.append("00");
    } else if n < 100 {
        out.append("0");
    }
    push_decimal(out, n);
    proof {
        let d = decimal(n as nat);
        if n < 10 {
            assert(Seq::new(2, |i: int| '0') =~= "00"@);
            assert(before + "00"@ + d =~= before + (Seq::new(2, |i: int| '0') + d));
        } else if n < 100 {
            assert(Seq::new(1, |i: int| '0') =~= "0"@);
            assert(before + "0"@ + d =~= before + (Seq::new(1, |i: int| '0') + d));
        }
    }
}

/// Zeros in front do not change the value of a string of digits.
proof fn lemma_leading_zeros(k: nat, d: Seq<char>)
    ensures
        digits_value(Seq::new(k, |i: int| '0') + d) == digits_value(d),
        all_digits(d) ==> all_digits(Seq::new(k, |i: int| '0') + d),
    decreases d.len() + k,
{
    let z = Seq::new(k, |i: int| '0');
    if d.len() == 0 {
        assert(z + d =~= z);
        if k > 0 {
            assert(z.drop_last() =~= Seq::new((k - 1) as nat, |i: int| '0'));
            lemma_leading_zeros((k - 1) as nat, d);
            assert(Seq::new((k - 1) as nat, |i: int| '0') + d =~= z.drop_last());
            assert(digit_value(z.last()) == 0);
        }
    } else {
        lemma_leading_zeros(k, d.drop_last());
        assert((z + d).drop_last() =~= z + d.drop_last());
        assert((z + d).last() == d.last());
    }
    assert(all_digits(d) ==> all_digits(z + d)) by {
        if all_digits(d) {
            assert forall|i: int| 0 <= i < (z + d).len() implies is_digit(#[trigger] (z + d)[i]) by {
                if i >= k {
                    assert((z + d)[i] == d[i - k]);
                }
            }
        }
    }
}

/// Law: an invoice number is the date text, a dash, and then at least
/// three digits that read back as the minutes since midnight,
/// `hour * 60 + minute`.
pub proof fn law_invoice_minutes_read_back(date: Seq<char>, hour: nat, minute: nat)
    requires
        hour < 24,
        minute < 60,
    ensures
        ({
            let id = invoice_id_spec(date, hour, minute);
            let mins = id.subrange(date.len() + 1int, id.len() as int);
            &&& id.len() > date.len()
            &&& id.subrange(0, date.len() as int) == date
            &&& id[date.len() as int] == '-'
            &&& mins.len() >= 3
            &&& all_digits(mins)
            &&& digits_value(mins) == hour * 60 + minute
        }),
{
    let n = hour * 60 + minute;
    let id = invoice_id_spec(date, hour, minute);
    lemma_decimal_reads_back(n);
    lemma_decimal_len(n);
    let d = decimal(n);
    let k: nat = if d.len() < 3 { (3 - d.len()) as nat } else { 0 };
    lemma_leading_zeros(k, d);
    assert(zero_padded(n, 3) =~= Seq::new(k, |i: int| '0') + d);
    reveal_strlit("-");
    assert(id =~= date + seq!['-'] + zero_padded(n, 3));
    assert(id.subrange(date.len() + 1int, id.len() as int) =~= zero_padded(n, 3));
    assert(id.subrange(0, date.len() as int) =~= date);
}

/// Law: on one date, different times of day give different invoice
/// numbers, and the same time gives the same number.
pub proof fn law_invoice_distinct_times(date: Seq<char>, h1: nat, m1: nat, h2: nat, m2: nat)
    requires
        h1 < 24,
        m1 < 60,
        h2 < 24,
        m2 < 60,
    ensures
        (invoice_id_spec(date, h1, m1) == invoice_id_spec(date, h2, m2)) <==> (h1 == h2 && m1 == m2),
{
    law_invoice_minutes_read_back(date, h1, m1);
    law_invoice_minutes_read_back(date, h2, m2);
    if invoice_id_spec(date, h1, m1) == invoice_id_spec(date, h2, m2) {
        assert(h1 * 60 + m1 == h2 * 60 + m2);
        assert(h1 == h2) by (nonlinear_arith)
            requires
                h1 * 60 + m1 == h2 * 60 + m2,
                m1 < 60,
                m2 < 60,
        ;
    }
}

/// Builds the invoice number from the date text and the local time.
pub fn invoice_id_from(date: &str, hour: u32, minute: u32) -> (res: String)
    requires
        hour < 24,
        minute < 60,
    ensures
        res@ == invoice_id_spec(date@, hour as nat, minute as nat),
{
    let mut id: String = date.to_owned();
    id.append("-");
    push_three_digits(&mut id, (hour * 60 + minute) as u64);
    id
}

/// Invoice ID: YYYYMMDD-mmm (minutes since midnight), from the local clock:
/// the local date as `%Y%m%d` writes it, a dash, and the minute of the day
/// with at least three digits. `None` when the clock reads a time before
/// the Unix epoch or one that chrono cannot represent. Which day and minute
/// the clock gives is not claimed.
pub fn gen_invoice_id() -> (res: Option<String>)
    ensures
        match res {
            Some(id) => exists|y: int, mo: nat, d: nat, h: nat, m: nat|
                1 <= mo <= 12 && 1 <= d <= 31 && h < 24 && m < 60 && id@ == #[trigger] invoice_id_spec(
                    ymd_text(y, mo, d),
                    h,
                    m,
                ),
            None => true,
        },
{
    let now: chrono::NaiveDateTime = match local_now() {
        Some(t) => t,
        None => {
            return None;
        },
    };
    let date: String = format_local(&now, "%Y%m%d");
    let h: u32 = local_hour(&now);
    let m: u32 = local_minute(&now);
    let res: String = invoice_id_from(date.as_str(), h, m);
    proof {
        let (y, mo, d) = choose|y: int, mo: nat, d: nat|
            1 <= mo <= 12 && 1 <= d <= 31 && date@ == #[trigger] ymd_text(y, mo, d);
        assert(res@ == invoice_id_spec(ymd_text(y, mo, d), h as nat, m as nat));
    }
    Some(res)
}

/// The number shown for a sale: its invoice number, or the row ID for a
/// sale without one.
pub open spec fn invoice_label_spec(invoice_id: Option<String>, id: i64) -> Seq<char> {
    match invoice_id {
        Some(inv) => inv@,
        None => decimal_int(id as int),
    }
}

/// The number shown for a sale in lists, the ledger and the invoice.
pub fn invoice_label(invoice_id: Option<String>, id: i64) -> (res: String)
    ensures
        res@ == invoice_label_spec(invoice_id, id),
{
    match invoice_id {
        Some(inv) => inv,
        None => {
            let mut s: String = String::new();
            push_decimal_i64(&mut s, id);
            assert(Seq::<char>::empty() + decimal_int(id as int) =~= decimal_int(id as int));
            s
        },
    }
}

/// Items of a new sale with a blank description are not recorded.
pub fn item_is_recorded(description: &str) -> (res: bool)
    ensures
        res == (trim_seq(description@).len() > 0),
{
    let t: String = trim(description);
    t.as_str().unicode_len() > 0
}

/// Shipping is charged to the buyer unless the request says otherwise;
/// stored as 1 or 0.
pub fn shipping_charged_flag(shipping_charged: Option<bool>) -> (res: i64)
    ensures
        res == (if shipping_charged != Some(false) { 1i64 } else { 0i64 }),
{
    match shipping_charged {
        Some(false) => 0,
        _ => 1,
    }
}

/// The text of an optional field, empty when it is missing.
pub open spec fn text_or_empty(v: Option<String>) -> Seq<char> {
    match v {
        Some(s) => s@,
        None => Seq::<char>::empty(),
    }
}

/// The order reference on a label: the invoice number, else the
/// platform's order number, else `#` and the sale's row ID.
pub open spec fn label_reference_spec(invoice_id: Option<String>, platform_order_id: Option<String>, id: i64) -> Seq<char> {
    match invoice_id {
        Some(inv) => inv@,
        None => match platform_order_id {
            Some(p) => p@,
            None => "#"@ + decimal_int(id as int),
        },
    }
}

/// The address of the buyer as a sale stores it.
pub struct ShippingAddress {
    pub buyer_name: Option<String>,
    pub buyer_address: Option<String>,
    pub buyer_city: Option<String>,
    pub buyer_state: Option<String>,
    pub buyer_zip: Option<String>,
}

/// The line of the label file: name, street address, "city state zip"
/// (trimmed) and the order reference, separated by `|`.
pub open spec fn shipping_label_spec(a: ShippingAddress, reference: Seq<char>) -> Seq<char> {
    text_or_empty(a.buyer_name) + "|"@ + text_or_empty(a.buyer_address) + "|"@ + trim_seq(
        text_or_empty(a.buyer_city) + " "@ + text_or_empty(a.buyer_state) + " "@ + text_or_empty(
            a.buyer_zip,
        ),
    ) + "|"@ + reference + "\n"@
}

fn append_opt(out: &mut String, v: &Option<String>)
    ensures
        final(out)@ == old(out)@ + text_or_empty(*v),
{
    match v {
        Some(s) => out.append(s.as_str()),
        None => {
            assert(old(out)@ + Seq::<char>::empty() =~= old(out)@);
        },
    }
}

/// The order reference printed on a shipping label.
pub fn label_reference(invoice_id: Option<String>, platform_order_id: Option<String>, id: i64) -> (res: String)
    ensures
        res@ == label_reference_spec(invoice_id, platform_order_id, id),
{
    match invoice_id {
        Some(inv) => inv,
        None => match platform_order_id {
            Some(p) => p,
            None => {
                let mut s: String = "#".to_owned();
                push_decimal_i64(&mut s, id);
                s
            },
        },
    }
}

/// The content of the label file that a shipping tool imports.
pub fn shipping_label(a: &ShippingAddress, reference: &str) -> (res: String)
    ensures
        res@ == shipping_label_spec(*a, reference@),
{
    let mut csz: String = String::new();
    append_opt(&mut csz, &a.buyer_city);
    csz.append(" ");
    append_opt(&mut csz, &a.buyer_state);
    csz.append(" ");
    append_opt(&mut csz, &a.buyer_zip);
    let csz_t: String = trim(csz.as_str());
    let mut out: String = String::new();
    append_opt(&mut out, &a.buyer_name);
    out.append("|");
    append_opt(&mut out, &a.buyer_address);
    out.append("|");
    out.append(csz_t.as_str());
    out.append("|");
    out.append(reference);
    out.append("\n");
    assert(csz@ =~= Seq::<char>::empty() + text_or_empty(a.buyer_city) + " "@ + text_or_empty(a.buyer_state) + " "@ + text_or_empty(a.buyer_zip));
    assert(Seq::<char>::empty() + text_or_empty(a.buyer_city) =~= text_or_empty(a.buyer_city));
    assert(out@ =~= shipping_label_spec(*a, reference@));
    out
}

/// Splitting text without the separator gives the text, appended to the
/// last piece.
proof fn lemma_split_append(x: Seq<char>, y: Seq<char>, sep: char)
    requires
        !y.contains(sep),
    ensures
        split_seq(x + y, sep) == split_seq(x, sep).update(
            split_seq(x, sep).len() - 1,
            split_seq(x, sep).last() + y,
        ),
    decreases y.len(),
{
    crate::db::import::lemma_split_len(x, sep);
    if y.len() == 0 {
        assert(x + y =~= x);
        assert(split_seq(x, sep).last() + y =~= split_seq(x, sep).last());
        assert(split_seq(x, sep).update(split_seq(x, sep).len() - 1, split_seq(x, sep).last())
            =~= split_seq(x, sep));
    } else {
        let y0 = y.drop_last();
        let c = y.last();
        assert(!y0.contains(sep)) by {
            if y0.contains(sep) {
                let k = choose|k: int| 0 <= k < y0.len() && y0[k] == sep;
                assert(y[k] == sep);
            }
        }
        assert(c != sep) by {
            assert(y[y.len() - 1] == c);
        }
        lemma_split_append(x, y0, sep);
        assert((x + y).drop_last() =~= x + y0);
        assert((x + y).last() == c);
        crate::db::import::lemma_split_len(x + y0, sep);
        let s0 = split_seq(x, sep);
        assert(split_seq(x + y, sep) =~= s0.update(s0.len() - 1, s0.last() + y0).update(
            s0.len() - 1,
            (s0.last() + y0).push(c),
        ));
        assert((s0.last() + y0).push(c) =~= s0.last() + y);
    }
}

/// A field followed by the separator adds one empty piece.
proof fn lemma_split_sep(x: Seq<char>, sep: char)
    ensures
        split_seq(x + seq![sep], sep) == split_seq(x, sep).push(Seq::<char>::empty()),
{
    assert((x + seq![sep]).drop_last() =~= x);
    assert((x + seq![sep]).last() == sep);
}

/// The fields of the label, in order.
pub open spec fn label_fields(a: ShippingAddress, reference: Seq<char>) -> Seq<Seq<char>> {
    seq![
        text_or_empty(a.buyer_name),
        text_or_empty(a.buyer_address),
        trim_seq(text_or_empty(a.buyer_city) + " "@ + text_or_empty(a.buyer_state) + " "@ + text_or_empty(a.buyer_zip)),
        reference,
    ]
}

/// Law: when no part of the address or the reference holds a `|`, the
/// label line (without its final newline) splits at `|` back into the
/// name, the street address, "city state zip" and the reference.
pub proof fn law_label_reads_back(a: ShippingAddress, reference: Seq<char>)
    requires
        !text_or_empty(a.buyer_name).contains('|'),
        !text_or_empty(a.buyer_address).contains('|'),
        !text_or_empty(a.buyer_city).contains('|'),
        !text_or_empty(a.buyer_state).contains('|'),
        !text_or_empty(a.buyer_zip).contains('|'),
        !reference.contains('|'),
    ensures
        split_seq(shipping_label_spec(a, reference).drop_last(), '|') == label_fields(a, reference),
{
    let n = text_or_empty(a.buyer_name);
    let ad = text_or_empty(a.buyer_address);
    let raw = text_or_empty(a.buyer_city) + " "@ + text_or_empty(a.buyer_state) + " "@ + text_or_empty(a.buyer_zip);
    let c = trim_seq(raw);
    let r = reference;
    reveal_strlit(" ");
    reveal_strlit("|");
    reveal_strlit("\n");
    assert(!raw.contains('|')) by {
        if raw.contains('|') {
            let k = choose|k: int| 0 <= k < raw.len() && raw[k] == '|';
            let p1 = text_or_empty(a.buyer_city);
            let p2 = text_or_empty(a.buyer_state);
            let p3 = text_or_empty(a.buyer_zip);
            if k < p1.len() {
                assert(p1[k] == '|');
            } else if k < p1.len() + 1 {
            } else if k < p1.len() + 1 + p2.len() {
                assert(p2[k - p1.len() - 1] == '|');
            } else if k < p1.len() + 2 + p2.len() {
            } else {
                assert(p3[k - p1.len() - 2 - p2.len()] == '|');
            }
        }
    }
    assert(!c.contains('|')) by {
        if c.contains('|') {
            crate::text::lemma_trim_keeps_chars(raw, '|');
        }
    }
    let e = Seq::<char>::empty();
    assert(split_seq(e, '|') == seq![e]);
    lemma_split_append(e, n, '|');
    assert(e + n =~= n);
    let s1 = n + seq!['|'];
    lemma_split_sep(n, '|');
    lemma_split_append(s1, ad, '|');
    let s2 = s1 + ad + seq!['|'];
    lemma_split_sep(s1 + ad, '|');
    lemma_split_append(s2, c, '|');
    let s3 = s2 + c + seq!['|'];
    lemma_split_sep(s2 + c, '|');
    lemma_split_append(s3, r, '|');
    assert(shipping_label_spec(a, reference).drop_last() =~= s3 + r);
    assert(e + ad =~= ad);
    assert(e + c =~= c);
    assert(e + r =~= r);
    assert(split_seq(s3 + r, '|') =~= label_fields(a, reference));
}

/// The `Content-Disposition` of a label download.
pub fn label_disposition(id: i64) -> (res: String)
    ensures
        res@ == "attachment; filename=\"label_"@ + decimal_int(id as int) + ".txt\""@,
{
    let mut d: String = "attachment; filename=\"label_".to_owned();
    push_decimal_i64(&mut d, id);
    d.append(".txt\"");
    d
}

} // verus!
