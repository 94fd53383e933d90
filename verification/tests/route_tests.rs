use card_vault::clock::{column_seconds, unix_now};
use card_vault::db::scryfall::preferred_image_uri;
use card_vault::db::{after_id_try, RetryStep, ID_TRIES};
use card_vault::errors::AppError;
use card_vault::routes::individuals::{filter_individuals, IndividualKey, IndividualsQuery};
use card_vault::routes::ingest::{
    check_fields, failure_message, field_kind, IngestFailure, IngestField, IngestFields,
};
use card_vault::routes::inventory::{
    card_page_path, filter_inventory, gen_card_id, img_ext, insert_attempts, nonempty_notes,
    parse_location_id, price_finishes, scan_file_name, scan_relative_path, scryfall_card_url,
    status_redirect, supplied_card_id, InventoryQuery, LotKey, PriceRefresh,
};
use card_vault::routes::labels::{gen_uid, generate_count, label_brand, print_count, uid_from_bytes};
use card_vault::routes::ledger::stored_notes;
use card_vault::routes::market::{comparison_imports, market_set_filter, movers_query, search_terms};
use card_vault::routes::sales::{
    gen_invoice_id, invoice_id_from, invoice_label, item_is_recorded, label_disposition,
    label_reference, shipping_charged_flag, shipping_label, ShippingAddress,
};
use card_vault::routes::sealed::{sealed_language, text_or};

fn lot(name: &str, set: &str, cond: &str, foil: &str) -> LotKey {
    LotKey { name: name.into(), set_code: set.into(), condition: cond.into(), foil: foil.into() }
}

#[test]
fn inventory_filters() {
    let rows = vec![
        lot("Lightning Bolt", "m10", "near_mint", "normal"),
        lot("Counterspell", "ice", "lightly_played", "foil"),
        lot("Bolt of Fury", "m10", "near_mint", "foil"),
    ];
    let all = InventoryQuery { set: None, condition: None, foil: None, q: None };
    assert_eq!(filter_inventory(&all, &rows), vec![0, 1, 2]);
    let q = InventoryQuery { set: Some("".into()), condition: None, foil: None, q: Some("BOLT".into()) };
    assert_eq!(filter_inventory(&q, &rows), vec![0, 2]);
    let q = InventoryQuery { set: Some("m10".into()), condition: None, foil: Some("foil".into()), q: None };
    assert_eq!(filter_inventory(&q, &rows), vec![2]);
    let q = InventoryQuery { set: None, condition: Some("damaged".into()), foil: None, q: None };
    assert!(filter_inventory(&q, &rows).is_empty());
}

#[test]
fn individuals_filters() {
    let rows = vec![
        IndividualKey { id: "Ab12Cd".into(), name: "Lightning Bolt".into(), status: "in_stock".into() },
        IndividualKey { id: "zz99".into(), name: "Counterspell".into(), status: "sold".into() },
    ];
    let q = IndividualsQuery { status: None, q: Some("ab12".into()) };
    assert_eq!(filter_individuals(&q, &rows), vec![0]);
    let q = IndividualsQuery { status: Some("sold".into()), q: None };
    assert_eq!(filter_individuals(&q, &rows), vec![1]);
    let q = IndividualsQuery { status: Some("sold".into()), q: Some("bolt".into()) };
    assert!(filter_individuals(&q, &rows).is_empty());
    let q = IndividualsQuery { status: Some("".into()), q: Some("".into()) };
    assert_eq!(filter_individuals(&q, &rows), vec![0, 1]);
}

#[test]
fn scan_extensions() {
    assert_eq!(img_ext("image/png"), "png");
    assert_eq!(img_ext(" image/webp ; charset=x"), "webp");
    assert_eq!(img_ext("image/gif"), "gif");
    assert_eq!(img_ext("image/tiff"), "jpg");
    assert_eq!(img_ext(""), "jpg");
    assert_eq!(card_vault::routes::ingest::img_ext("image/png"), "png");
    assert_eq!(card_vault::routes::ingest::img_ext("image/x-webp"), "webp");
    assert_eq!(card_vault::routes::ingest::img_ext("image/gif"), "gif");
    assert_eq!(card_vault::routes::ingest::img_ext("image/tiff"), "tiff");
    assert_eq!(card_vault::routes::ingest::img_ext("image/jpeg"), "jpg");
}

#[test]
fn new_single_form() {
    assert_eq!(supplied_card_id(&Some(" Ab12 ".into())), Some("Ab12".to_string()));
    assert_eq!(supplied_card_id(&Some("abcdefg".into())), None);
    assert_eq!(supplied_card_id(&Some("ab-1".into())), None);
    assert_eq!(supplied_card_id(&Some("   ".into())), None);
    assert_eq!(supplied_card_id(&Some("é".into())), None);
    assert_eq!(supplied_card_id(&None), None);
    assert_eq!(insert_attempts(&Some("a".into())), 1);
    assert_eq!(insert_attempts(&None), 5);
    assert_eq!(parse_location_id(" 12 "), Some(12));
    assert_eq!(parse_location_id("0"), None);
    assert_eq!(parse_location_id("-3"), None);
    assert_eq!(parse_location_id(""), None);
    assert_eq!(parse_location_id("x"), None);
    assert_eq!(nonempty_notes("".into()), None);
    assert_eq!(nonempty_notes(" ".into()), Some(" ".to_string()));
}

#[test]
fn generated_ids() {
    let id = gen_card_id();
    assert_eq!(id.len(), 6);
    assert!(id.chars().all(|c| c.is_ascii_alphanumeric()));
    assert_eq!(supplied_card_id(&Some(id.clone())), Some(id));
    let uid = gen_uid();
    assert_eq!(uid.len(), 6);
    assert_eq!(uid_from_bytes(&vec![0, 9, 10, 35, 36, 61, 200]), "09AZaz");
    assert_eq!(uid_from_bytes(&vec![62, 63, 255, 124, 125, 1]), "017011");
}

#[test]
fn paths_and_redirects() {
    assert_eq!(card_page_path("abc"), "/inventory/card/abc");
    assert_eq!(status_redirect(Some("abc".into())), "/inventory/card/abc");
    assert_eq!(status_redirect(None), "/inventory");
    assert_eq!(scan_file_name("front", "png"), "front.png");
    assert_eq!(scan_relative_path("Ab12", "back.jpg"), "Ab12/back.jpg");
    assert_eq!(scryfall_card_url("xyz"), "https://api.scryfall.com/cards/xyz");
}

#[test]
fn price_refresh_tally() {
    let mut t = PriceRefresh::new(3);
    assert!(!t.is_finished());
    t.record_updated();
    t.record_skipped();
    assert!(!t.is_finished());
    t.record_updated();
    assert_eq!((t.total, t.updated, t.skipped), (3, 2, 1));
    assert!(t.is_finished());
    assert_eq!(t.finish(), (3, 2, 1));
    assert!(PriceRefresh::new(0).is_finished());
    assert_eq!(price_finishes(), vec!["normal", "foil", "etched"]);
}

#[test]
fn label_counts_and_brand() {
    assert_eq!(generate_count(None), 80);
    assert_eq!(generate_count(Some(0)), 1);
    assert_eq!(generate_count(Some(5000)), 800);
    assert_eq!(generate_count(Some(42)), 42);
    assert_eq!(print_count(None), 80);
    assert_eq!(print_count(Some(120)), 80);
    assert_eq!(print_count(Some(-4)), 1);
    assert_eq!(label_brand(None), "Direwolf Card Vault");
    assert_eq!(label_brand(Some("".into())), "Direwolf Card Vault");
    assert_eq!(label_brand(Some("Shop".into())), "Shop");
}

#[test]
fn ingest_fields() {
    let mut f = IngestFields::new();
    assert_eq!(f.condition, "near_mint");
    assert_eq!(f.foil, "normal");
    assert!(matches!(check_fields(&f), Err(IngestFailure::MissingScryfallId)));
    f.apply_text(field_kind("scryfall_id"), "  abc \n");
    f.apply_text(field_kind("condition"), "   ");
    f.apply_text(field_kind("foil"), " foil ");
    f.apply_text(field_kind("other"), "zzz");
    assert_eq!(f.scryfall_id, "abc");
    assert_eq!(f.condition, "near_mint");
    assert_eq!(f.foil, "foil");
    assert!(check_fields(&f).is_ok());
    f.apply_file(field_kind("front"), None, vec![1, 2]);
    f.apply_file(field_kind("back"), Some("image/png".into()), vec![]);
    let front = f.front.as_ref().unwrap();
    assert_eq!(front.content_type, "image/jpeg");
    assert_eq!(front.bytes, vec![1, 2]);
    assert!(f.back.is_none());
    assert_eq!(field_kind("back"), IngestField::Back);
}

#[test]
fn ingest_messages() {
    assert_eq!(failure_message(&IngestFailure::MissingScryfallId), "scryfall_id is required");
    assert_eq!(failure_message(&IngestFailure::UnknownCard("x1".into())), "scryfall_id not found: x1");
    assert_eq!(failure_message(&IngestFailure::Database("e".into())), "db error: e");
    assert_eq!(
        failure_message(&IngestFailure::PoolEmpty),
        "UID pool is empty — generate more labels first"
    );
    assert_eq!(failure_message(&IngestFailure::Pool("p".into())), "uid pool error: p");
    assert_eq!(failure_message(&IngestFailure::Insert("i".into())), "insert failed: i");
}

#[test]
fn invoices_and_labels() {
    assert_eq!(invoice_id_from("20240315", 13, 5), "20240315-785");
    assert_eq!(invoice_id_from("20240315", 0, 0), "20240315-000");
    assert_eq!(invoice_id_from("20240307", 0, 5), "20240307-005");
    assert_eq!(invoice_id_from("20240307", 1, 39), "20240307-099");
    assert_eq!(invoice_id_from("20240307", 1, 40), "20240307-100");
    assert_eq!(invoice_id_from("20240307", 23, 59), "20240307-1439");
    let id = gen_invoice_id().unwrap();
    let (date, mins) = id.split_once('-').unwrap();
    assert_eq!(date.len(), 8);
    assert!(mins.parse::<u32>().unwrap() < 1440);
    assert_eq!(invoice_label(Some("20240101-5".into()), 7), "20240101-5");
    assert_eq!(invoice_label(None, 7), "7");
    assert!(item_is_recorded(" x "));
    assert!(!item_is_recorded("  "));
    assert_eq!(shipping_charged_flag(None), 1);
    assert_eq!(shipping_charged_flag(Some(true)), 1);
    assert_eq!(shipping_charged_flag(Some(false)), 0);
    assert_eq!(label_reference(None, Some("TCG-1".into()), 9), "TCG-1");
    assert_eq!(label_reference(None, None, 9), "#9");
    assert_eq!(label_reference(Some("inv".into()), Some("TCG-1".into()), 9), "inv");
    let a = ShippingAddress {
        buyer_name: Some("Ann".into()),
        buyer_address: Some("1 Main St".into()),
        buyer_city: Some("Springfield".into()),
        buyer_state: None,
        buyer_zip: Some("12345".into()),
    };
    assert_eq!(shipping_label(&a, "20240101-5"), "Ann|1 Main St|Springfield  12345|20240101-5\n");
    let empty = ShippingAddress { buyer_name: None, buyer_address: None, buyer_city: None, buyer_state: None, buyer_zip: None };
    assert_eq!(shipping_label(&empty, "#3"), "|||#3\n");
    assert_eq!(label_disposition(12), "attachment; filename=\"label_12.txt\"");
}

#[test]
fn market_terms() {
    assert_eq!(comparison_imports(&vec![9, 8, 7]), Some((9, 8)));
    assert_eq!(comparison_imports(&vec![9]), None);
    assert_eq!(market_set_filter(&None), "");
    assert_eq!(market_set_filter(&Some("lea".into())), "lea");
    assert!(movers_query(true, true).ends_with(" AND bc.set_code = ? ORDER BY delta DESC LIMIT 25"));
    assert!(movers_query(false, false).ends_with("!= bp_old.price_usd ORDER BY delta ASC LIMIT 25"));
    assert!(search_terms(&None, &Some("  ".into()), &None).is_none());
    let t = search_terms(&Some(" bolt ".into()), &None, &Some("rare".into())).unwrap();
    assert_eq!(t.q, "bolt");
    assert_eq!(t.set, "");
    assert_eq!(t.rarity, "rare");
    assert_eq!(t.like_q, "%bolt%");
}

#[test]
fn small_forms() {
    assert_eq!(stored_notes(Some("".into())), None);
    assert_eq!(stored_notes(Some("x".into())), Some("x".to_string()));
    assert_eq!(stored_notes(None), None);
    assert_eq!(sealed_language(&None), "en");
    assert_eq!(sealed_language(&Some("ja".into())), "ja");
    assert_eq!(text_or(&None, ""), "");
    assert_eq!(preferred_image_uri(None, Some("L".into())), Some("L".to_string()));
    assert_eq!(preferred_image_uri(Some("N".into()), Some("L".into())), Some("N".to_string()));
}

#[test]
fn error_responses() {
    assert_eq!(AppError::Db("locked".into()).status_and_message(), (500, "Database error: locked".to_string()));
    assert_eq!(AppError::Template("t".into()).status_and_message(), (500, "Template error: t".to_string()));
    assert_eq!(AppError::NotFound("no card".into()).status_and_message(), (404, "no card".to_string()));
    assert_eq!(AppError::BadRequest("bad".into()).status_and_message(), (400, "bad".to_string()));
    assert_eq!(AppError::Internal("x".into()).status_and_message(), (500, "Internal error: x".to_string()));
}

#[test]
fn clock_is_after_2020() {
    assert!(unix_now().unwrap() > 1_577_836_800);
}

#[test]
fn column_seconds_converts() {
    assert_eq!(column_seconds(Some(1_700_000_000)), Some(1_700_000_000));
    assert_eq!(column_seconds(Some(0)), Some(0));
    assert_eq!(column_seconds(None), None);
    assert_eq!(column_seconds(Some(u64::MAX)), Some(-1));
}

#[test]
fn label_line_reads_back() {
    let a = ShippingAddress {
        buyer_name: Some("Bo Li".into()),
        buyer_address: Some("2 Elm Rd".into()),
        buyer_city: Some(" Austin".into()),
        buyer_state: Some("TX".into()),
        buyer_zip: None,
    };
    let line = shipping_label(&a, "#5");
    let fields: Vec<&str> = line.strip_suffix('\n').unwrap().split('|').collect();
    assert_eq!(fields, vec!["Bo Li", "2 Elm Rd", "Austin TX", "#5"]);
}

#[test]
fn id_retries_stop_after_ten() {
    assert_eq!(ID_TRIES, 10);
    assert_eq!(after_id_try(1, true), RetryStep::Use);
    assert_eq!(after_id_try(1, false), RetryStep::TryAgain);
    assert_eq!(after_id_try(9, false), RetryStep::TryAgain);
    assert_eq!(after_id_try(10, false), RetryStep::GiveUp);
    assert_eq!(after_id_try(10, true), RetryStep::Use);
}

#[test]
fn invoice_date_is_eight_digits() {
    let id = gen_invoice_id().unwrap();
    let (date, mins) = id.split_once('-').unwrap();
    assert!(date.chars().all(|c| c.is_ascii_digit()));
    let month: u32 = date[4..6].parse().unwrap();
    let day: u32 = date[6..8].parse().unwrap();
    assert!((1..=12).contains(&month));
    assert!((1..=31).contains(&day));
    assert!(mins.len() >= 3 && mins.parse::<u32>().unwrap() < 1440);
}
