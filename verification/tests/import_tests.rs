use card_vault::db::bulk::{batch_bounds, bulk_batch_size, is_english, select_new_files};
use card_vault::db::import::{
    condition_from_upper, foil_from_upper, normalize_condition, normalize_foil, normalize_language, plan_cardsphere_row,
    purchase_currency, tags_to_json, CardSphereRow, ImportResult, RowOutcome,
};
use card_vault::db::{base62_from_indices, gen_base62};
use card_vault::routes::import::{
    choose_import, detect_format, error_html, first_line, html_escape, success_html,
    upload_failed_html, CsvFormat,
};

fn row(scryfall_id: Option<&str>) -> CardSphereRow {
    CardSphereRow {
        count: 3,
        tradelist_count: 0,
        name: "Lightning Bolt".into(),
        edition: "Magic 2010".into(),
        condition: "lp".into(),
        language: "EN".into(),
        foil: "Y".into(),
        tags: Some(" trade , ,binder 2 ".into()),
        scryfall_id: scryfall_id.map(|s| s.to_string()),
        cardsphere_id: Some(12),
        last_modified: None,
    }
}

#[test]
fn conditions_normalise() {
    assert_eq!(normalize_condition("NM"), "near_mint");
    assert_eq!(normalize_condition("nm"), "near_mint");
    assert_eq!(normalize_condition("lightly_played"), "lightly_played");
    assert_eq!(normalize_condition("MP"), "moderately_played");
    assert_eq!(normalize_condition("Hp"), "heavily_played");
    assert_eq!(normalize_condition("dmg"), "damaged");
    assert_eq!(normalize_condition("Damaged"), "damaged");
    assert_eq!(normalize_condition("mint"), "near_mint");
    assert_eq!(normalize_condition(""), "near_mint");
}

#[test]
fn foil_and_language_normalise() {
    assert_eq!(normalize_foil("Y"), "foil");
    assert_eq!(normalize_foil("y"), "foil");
    assert_eq!(normalize_foil("Foil"), "foil");
    assert_eq!(normalize_foil("N"), "normal");
    assert_eq!(normalize_foil("etched"), "normal");
    assert_eq!(normalize_language("EN"), "en");
    assert_eq!(normalize_language("Jp"), "jp");
}

#[test]
fn tags_become_json() {
    assert_eq!(tags_to_json(&None), None);
    assert_eq!(tags_to_json(&Some("   ".into())), None);
    assert_eq!(tags_to_json(&Some(" , ,".into())), None);
    assert_eq!(tags_to_json(&Some("a, b".into())), Some(r#"["a","b"]"#.to_string()));
    assert_eq!(tags_to_json(&Some(" trade , ,binder 2 ".into())), Some(r#"["trade","binder 2"]"#.to_string()));
    assert_eq!(tags_to_json(&Some("say \"hi\"".into())), Some(r#"["say \"hi\""]"#.to_string()));
    assert_eq!(tags_to_json(&Some("a\\b".into())), Some(r#"["a\\b"]"#.to_string()));
}

#[test]
fn cardsphere_row_plan() {
    let lot = plan_cardsphere_row(&row(Some("abc-123"))).unwrap();
    assert_eq!(lot.scryfall_id, "abc-123");
    assert_eq!(lot.name, "Lightning Bolt");
    assert_eq!(lot.edition, "Magic 2010");
    assert_eq!(lot.language, "en");
    assert_eq!(lot.condition, "lightly_played");
    assert_eq!(lot.foil, "foil");
    assert_eq!(lot.quantity, 3);
    assert_eq!(lot.tags_json.as_deref(), Some(r#"["trade","binder 2"]"#));
    assert!(plan_cardsphere_row(&row(None)).is_none());
    assert!(plan_cardsphere_row(&row(Some(""))).is_none());
}

#[test]
fn import_tally_messages() {
    let mut r = ImportResult::new();
    r.record_row(RowOutcome::Imported);
    r.record_row(RowOutcome::Unreadable("CSV deserialize error".into()));
    r.record_row(RowOutcome::NoScryfallId { name: "Booster".into(), edition: "Alpha".into() });
    r.record_row(RowOutcome::CardFailed { name: "X".into(), scryfall_id: "id1".into(), error: "locked".into() });
    r.record_row(RowOutcome::LotFailed { name: "Y".into(), error: "constraint".into() });
    assert_eq!(r.rows_processed, 5);
    assert_eq!(r.cards_upserted, 2);
    assert_eq!(r.lots_upserted, 1);
    assert_eq!(
        r.errors,
        vec![
            "Row 3: CSV deserialize error".to_string(),
            "Row 4: skipped 'Booster' (Alpha): no Scryfall ID".to_string(),
            "Card upsert failed for 'X' (id1): locked".to_string(),
            "Lot upsert failed for 'Y': constraint".to_string(),
        ]
    );
    assert_eq!(r.lots_upserted + r.errors.len(), r.rows_processed);
}

#[test]
fn manabox_currency_default() {
    assert_eq!(purchase_currency(None), "USD");
    assert_eq!(purchase_currency(Some("EUR".into())), "EUR");
}

#[test]
fn base62_ids() {
    assert_eq!(base62_from_indices(&vec![0, 9, 10, 35, 36, 61]), "09azAZ");
    let id = gen_base62(6);
    assert_eq!(id.chars().count(), 6);
    assert!(id.chars().all(|c| c.is_ascii_alphanumeric()));
    assert_eq!(gen_base62(0), "");
}

#[test]
fn bulk_files_newest_first() {
    let names: Vec<String> = vec![
        "all-cards-20240101.json.gz".into(),
        "notes.txt".into(),
        "all-cards-20240301.json.gz".into(),
        "all-cards-20240201.json.gz".into(),
        "all-cards-20240201.json".into(),
    ];
    let imported: Vec<String> = vec!["all-cards-20240201.json.gz".into()];
    assert_eq!(
        select_new_files(&names, &imported),
        vec!["all-cards-20240301.json.gz".to_string(), "all-cards-20240101.json.gz".to_string()]
    );
    assert!(select_new_files(&vec![], &imported).is_empty());
}

#[test]
fn bulk_batches() {
    assert_eq!(bulk_batch_size(), 500);
    assert_eq!(batch_bounds(1201, 500), vec![(0, 500), (500, 1000), (1000, 1201)]);
    assert_eq!(batch_bounds(500, 500), vec![(0, 500)]);
    assert!(batch_bounds(0, 500).is_empty());
    assert!(is_english("en"));
    assert!(!is_english("ja"));
}

#[test]
fn html_escaping() {
    assert_eq!(html_escape(r#"<a href="x">&</a>"#), "&lt;a href=&quot;x&quot;&gt;&amp;&lt;/a&gt;");
    assert_eq!(html_escape("plain text"), "plain text");
    assert_eq!(html_escape("'"), "'");
}

#[test]
fn import_fragments() {
    let mut r = ImportResult::new();
    r.record_row(RowOutcome::Imported);
    r.record_row(RowOutcome::Unreadable("bad <row>".into()));
    let html = success_html(r);
    assert!(html.contains("Import complete — 2 rows processed, 1 lots upserted."));
    assert!(html.contains("<li>Row 3: bad &lt;row&gt;</li>"));
    assert!(html.contains("Warnings / skipped rows"));
    let clean = success_html(ImportResult::new());
    assert!(!clean.contains("error-list"));
    assert!(clean.starts_with("<div class=\"import-result success\""));
    let e = error_html("boom & bust");
    assert!(e.contains("<p class=\"result-message\">Error: boom &amp; bust</p>"));
    assert!(upload_failed_html("eof").contains("Error: Failed to read upload: eof"));
}

#[test]
fn import_format_detection() {
    assert_eq!(first_line("a,b\r\nc"), "a,b");
    assert_eq!(first_line("a,b\r"), "a,b\r");
    assert_eq!(first_line(""), "");
    assert_eq!(first_line("\nx"), "");
    assert_eq!(detect_format("Count,Tradelist Count,Name\n1,0,X"), CsvFormat::CardSphere);
    assert_eq!(detect_format("Name,Cardsphere ID\n"), CsvFormat::CardSphere);
    assert_eq!(detect_format("Name,Set code,Set name\nX,Tradelist Count,y"), CsvFormat::ManaBox);
    match choose_import(Some("Name,Set code\nA,B".into())) {
        Ok((f, c)) => {
            assert_eq!(f, CsvFormat::ManaBox);
            assert_eq!(c, "Name,Set code\nA,B");
        }
        Err(_) => panic!("expected import"),
    }
    match choose_import(Some("  \n ".into())) {
        Err(h) => assert!(h.contains("Error: No CSV file provided.")),
        Ok(_) => panic!("expected refusal"),
    }
    assert!(choose_import(None).is_err());
}

#[test]
fn rescan_after_import_selects_nothing() {
    let names: Vec<String> = vec![
        "b.json.gz".into(),
        "a.json.gz".into(),
        "c.txt".into(),
    ];
    let mut imported: Vec<String> = vec!["old.json.gz".into()];
    let first = select_new_files(&names, &imported);
    assert_eq!(first, vec!["b.json.gz".to_string(), "a.json.gz".to_string()]);
    imported.extend(first);
    assert!(select_new_files(&names, &imported).is_empty());
}

#[test]
fn escaped_text_has_no_markup() {
    let s = html_escape("<script>alert(\"x\" & 'y')</script>");
    assert!(!s.contains('<') && !s.contains('>') && !s.contains('"'));
    assert_eq!(s, "&lt;script&gt;alert(&quot;x&quot; &amp; 'y')&lt;/script&gt;");
}

#[test]
fn condition_and_foil_from_upper_case() {
    assert_eq!(condition_from_upper("NM"), "near_mint");
    assert_eq!(condition_from_upper("LIGHTLY_PLAYED"), "lightly_played");
    assert_eq!(condition_from_upper("MODERATELY_PLAYED"), "moderately_played");
    assert_eq!(condition_from_upper("HP"), "heavily_played");
    assert_eq!(condition_from_upper("DAMAGED"), "damaged");
    assert_eq!(condition_from_upper("nm"), "near_mint");
    assert_eq!(condition_from_upper("EX"), "near_mint");
    assert_eq!(foil_from_upper("Y"), "foil");
    assert_eq!(foil_from_upper("FOIL"), "foil");
    assert_eq!(foil_from_upper("y"), "normal");
    assert_eq!(foil_from_upper("N"), "normal");
}

#[test]
fn normalising_twice_is_normalising_once() {
    for cs in ["NM", "lp", "Moderately_Played", "hp", "DMG", "mint", "", "é"] {
        let once = normalize_condition(cs);
        assert_eq!(normalize_condition(once), once);
        assert_eq!(normalize_condition(&cs.to_ascii_lowercase()), once);
    }
    for f in ["Y", "y", "FOIL", "foil", "N", "etched", ""] {
        let once = normalize_foil(f);
        assert_eq!(normalize_foil(once), once);
    }
}

#[test]
fn escape_is_undone_by_replacing_entities() {
    for s in ["<a href=\"x\">&amp;</a>", "plain", "&&<<>>\"\"", "&quot;", "", "a&lt;b"] {
        let e = html_escape(s);
        let back = e
            .replace("&quot;", "\"")
            .replace("&gt;", ">")
            .replace("&lt;", "<")
            .replace("&amp;", "&");
        assert_eq!(back, s);
    }
}
