use card_vault::config::{host_from_key, resolve_host, Config, ConfigError};
use card_vault::text::{
    chars_of, contains, decimal_string, ends_with, parse_i64, parse_u16, push_decimal_i64,
    same_text, string_of, trim,
};

#[test]
fn trim_removes_unicode_whitespace() {
    assert_eq!(trim("  hello \t\n"), "hello");
    assert_eq!(trim("\u{3000}x\u{a0}"), "x");
    assert_eq!(trim(""), "");
    assert_eq!(trim("   "), "");
    assert_eq!(trim("a b"), "a b");
}

#[test]
fn trim_twice_is_trim_once() {
    for s in ["  a  ", "\u{2003}b\r\n", "c", ""] {
        let once = trim(s);
        assert_eq!(trim(&once), once);
    }
}

#[test]
fn decimal_formatting() {
    assert_eq!(decimal_string(0), "0");
    assert_eq!(decimal_string(7), "7");
    assert_eq!(decimal_string(1440), "1440");
    assert_eq!(decimal_string(u64::MAX), "18446744073709551615");
    let mut s = String::from("#");
    push_decimal_i64(&mut s, -42);
    assert_eq!(s, "#-42");
    let mut m = String::new();
    push_decimal_i64(&mut m, i64::MIN);
    assert_eq!(m, "-9223372036854775808");
}

#[test]
fn parse_u16_like_std() {
    for s in ["3000", "+80", "0", "65535", "65536", "", "+", "-1", "30a0", " 80", "0065535"] {
        assert_eq!(parse_u16(s), s.parse::<u16>().ok(), "input {:?}", s);
    }
}

#[test]
fn parse_i64_like_std() {
    for s in [
        "5", "-5", "+5", "", "-", "+", "9223372036854775807", "9223372036854775808",
        "-9223372036854775808", "-9223372036854775809", "12x", "99999999999999999999999",
    ] {
        assert_eq!(parse_i64(s), s.parse::<i64>().ok(), "input {:?}", s);
    }
}

#[test]
fn decimal_reads_back() {
    for p in [0u16, 1, 80, 3000, 65535] {
        assert_eq!(parse_u16(&decimal_string(p as u64)), Some(p));
    }
    for n in [0i64, -1, 17, i64::MIN, i64::MAX] {
        let mut s = String::new();
        push_decimal_i64(&mut s, n);
        assert_eq!(parse_i64(&s), Some(n));
    }
}

#[test]
fn substring_search() {
    assert!(contains("image/png; q=1", "png"));
    assert!(!contains("image/jpeg", "png"));
    assert!(contains("abc", ""));
    assert!(!contains("", "a"));
    assert!(ends_with("2024-01-01.json.gz", ".json.gz"));
    assert!(!ends_with("2024-01-01.json", ".json.gz"));
    assert!(same_text("lan", "lan"));
    assert!(!same_text("lan", "la"));
}

#[test]
fn chars_round_trip() {
    let cs = chars_of("héllo—");
    assert_eq!(cs.len(), 6);
    assert_eq!(string_of(&cs), "héllo—");
}

#[test]
fn resolve_host_aliases() {
    assert_eq!(resolve_host("localhost"), "127.0.0.1");
    assert_eq!(resolve_host("  LocalHost \n"), "127.0.0.1");
    assert_eq!(resolve_host("localnet"), "0.0.0.0");
    assert_eq!(resolve_host("LAN"), "0.0.0.0");
    assert_eq!(resolve_host("any"), "0.0.0.0");
    assert_eq!(resolve_host("0.0.0.0"), "0.0.0.0");
    assert_eq!(resolve_host("192.168.1.20"), "192.168.1.20");
    assert_eq!(resolve_host(" MyHost "), "myhost");
}

#[test]
fn config_defaults() {
    let c = Config::from_values(None, None, None, None, None).unwrap();
    assert_eq!(c.database_url, "sqlite:./card-vault.db");
    assert_eq!(c.scan_storage_path, "./scans");
    assert_eq!(c.data_dir, "./data");
    assert_eq!(c.host, "127.0.0.1");
    assert_eq!(c.port, 3000);
}

#[test]
fn config_values_and_bad_port() {
    let c = Config::from_values(
        Some("sqlite:/tmp/x.db".into()),
        Some("/srv/scans".into()),
        Some("/srv/data".into()),
        Some("localnet".into()),
        Some("8080".into()),
    )
    .unwrap();
    assert_eq!(c.database_url, "sqlite:/tmp/x.db");
    assert_eq!(c.scan_storage_path, "/srv/scans");
    assert_eq!(c.data_dir, "/srv/data");
    assert_eq!(c.host, "0.0.0.0");
    assert_eq!(c.port, 8080);
    match Config::from_values(None, None, None, None, Some("70000".into())) {
        Err(ConfigError::InvalidPort(p)) => assert_eq!(p, "70000"),
        other => panic!("unexpected {:?}", other),
    }
    assert!(Config::from_values(None, None, None, None, Some("http".into())).is_err());
}

#[test]
fn host_key_table_and_resolving_twice() {
    assert_eq!(host_from_key("localhost".into()), "127.0.0.1");
    assert_eq!(host_from_key("lan".into()), "0.0.0.0");
    assert_eq!(host_from_key("0.0.0.0".into()), "0.0.0.0");
    assert_eq!(host_from_key("LAN".into()), "LAN");
    assert_eq!(host_from_key("10.0.0.5".into()), "10.0.0.5");
    for raw in [" LocalHost ", "LAN", "any", "192.168.1.9", "MyBox", ""] {
        let once = resolve_host(raw);
        assert_eq!(resolve_host(&once), once);
    }
}
