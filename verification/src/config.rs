//! Server configuration: defaults for unset variables, the `HOST` aliases
//! and the listen port.
use vstd::prelude::*;
use crate::text::{
    ascii_lower, ascii_lower_char, is_ascii_seq, is_ws, lemma_ascii_case, lemma_trim_fixed,
    lemma_trim_keeps_chars, lemma_trim_shape, lowercase, parse_u16, parse_u16_spec, same_text,
    to_lowercase, trim, trim_seq,
};

verus! {

/// The server's settings, after defaults have been applied.
#[derive(Clone, Debug)]
pub struct Config {
    pub database_url: String,
    pub scan_storage_path: String,
    pub data_dir: String,
    pub host: String,
    pub port: u16,
}

/// Why a configuration was refused.
#[derive(Clone, Debug)]
pub enum ConfigError {
    /// `PORT` is not a number from 0 to 65535; the text it held.
    InvalidPort(String),
}

/// The bind address for a trimmed, lower-cased `HOST` value: `localhost`
/// means `127.0.0.1`; `localnet`, `lan`, `any` and `0.0.0.0` mean
/// `0.0.0.0`; anything else is used as it is.
pub open spec fn host_from_key_spec(key: Seq<char>) -> Seq<char> {
    if key == "localhost"@ {
        "127.0.0.1"@
    } else if key == "localnet"@ || key == "lan"@ || key == "any"@ || key == "0.0.0.0"@ {
        "0.0.0.0"@
    } else {
        key
    }
}

/// The bind address for a `HOST` value: the value is trimmed and
/// lower-cased, then looked up in the alias table of [`host_from_key_spec`].
pub open spec fn resolve_host_spec(raw: Seq<char>) -> Seq<char> {
    host_from_key_spec(lowercase(trim_seq(raw)))
}

/// The bind address for a `HOST` value that is already trimmed and in
/// lower case.
pub fn host_from_key(key: String) -> (res: String)
    ensures
        res@ == host_from_key_spec(key@),
{
    let k: &str = key.as_str();
    if same_text(k, "localhost") {
        "127.0.0.1".to_owned()
    } else if same_text(k, "localnet") || same_text(k, "lan") || same_text(k, "any")
        || same_text(k, "0.0.0.0") {
        "0.0.0.0".to_owned()
    } else {
        key
    }
}

/// Resolve friendly HOST aliases to bind addresses.
///
/// | Value       | Binds to    | Accessible from              |
/// |-------------|-------------|------------------------------|
/// | `localhost` | 127.0.0.1   | This machine only (default)  |
/// | `localnet`  | 0.0.0.0     | Any machine on your LAN      |
/// | `any`       | 0.0.0.0     | Any network (open to WAN)    |
/// | `<ip>`      | that IP     | Specific interface           |
pub fn resolve_host(raw: &str) -> (res: String)
    ensures
        res@ == resolve_host_spec(raw@),
{
    let trimmed: String = trim(raw);
    let key: String = to_lowercase(trimmed.as_str());
    host_from_key(key)
}

/// An ASCII value in lower case, with no whitespace at either end, is
/// looked up as it is.
proof fn lemma_key_fixed(s: Seq<char>)
    requires
        is_ascii_seq(s),
        ascii_lower(s) == s,
        s.len() > 0 ==> !is_ws(s[0]) && !is_ws(s.last()),
    ensures
        resolve_host_spec(s) == host_from_key_spec(s),
{
    lemma_trim_fixed(s);
}

/// Law: for an ASCII `HOST` value, resolving the bind address once more
/// gives the same address.
pub proof fn law_resolve_host_idempotent(raw: Seq<char>)
    requires
        is_ascii_seq(raw),
    ensures
        resolve_host_spec(resolve_host_spec(raw)) == resolve_host_spec(raw),
{
    let t = trim_seq(raw);
    assert forall|i: int| 0 <= i < t.len() implies (#[trigger] t[i] as u32) < 128 by {
        assert(t.contains(t[i]));
        lemma_trim_keeps_chars(raw, t[i]);
        let k = choose|k: int| 0 <= k < raw.len() && raw[k] == t[i];
        assert((raw[k] as u32) < 128);
    }
    lemma_trim_shape(raw);
    lemma_ascii_case(t);
    let key = ascii_lower(t);
    if key.len() > 0 {
        assert(key[0] == ascii_lower_char(t[0]));
        assert(key.last() == ascii_lower_char(t.last()));
    }
    reveal_strlit("localhost");
    reveal_strlit("localnet");
    reveal_strlit("lan");
    reveal_strlit("any");
    reveal_strlit("0.0.0.0");
    reveal_strlit("127.0.0.1");
    if key == "localhost"@ {
        assert(ascii_lower("127.0.0.1"@) =~= "127.0.0.1"@);
        assert("127.0.0.1"@[0] != "localhost"@[0]);
        lemma_key_fixed("127.0.0.1"@);
    } else if key == "localnet"@ || key == "lan"@ || key == "any"@ || key == "0.0.0.0"@ {
        assert(ascii_lower("0.0.0.0"@) =~= "0.0.0.0"@);
        lemma_key_fixed("0.0.0.0"@);
    } else {
        lemma_key_fixed(key);
    }
}

/// The default database location.
pub open spec fn default_database_url() -> Seq<char> {
    "sqlite:./card-vault.db"@
}

/// The default directory for card scans.
pub open spec fn default_scan_storage_path() -> Seq<char> {
    "./scans"@
}

/// The default directory for bulk data files.
pub open spec fn default_data_dir() -> Seq<char> {
    "./data"@
}

/// The default value of `HOST`.
pub open spec fn default_host() -> Seq<char> {
    "localhost"@
}

/// The default value of `PORT`.
pub open spec fn default_port() -> Seq<char> {
    "3000"@
}

/// A variable's value, or `default` where it is unset.
pub open spec fn value_or(v: Option<String>, default: Seq<char>) -> Seq<char> {
    match v {
        Some(s) => s@,
        None => default,
    }
}

fn string_or(v: Option<String>, default: &str) -> (res: String)
    ensures
        res@ == value_or(v, default@),
{
    match v {
        Some(s) => s,
        None => default.to_owned(),
    }
}

impl Config {
    /// Builds the configuration from the values of `DATABASE_URL`,
    /// `SCAN_STORAGE_PATH`, `DATA_DIR`, `HOST` and `PORT` (`None` where a
    /// variable is unset). Unset variables take their defaults, `HOST` goes
    /// through [`resolve_host`], and `PORT` must parse as a `u16`.
    pub fn from_values(
        database_url: Option<String>,
        scan_storage_path: Option<String>,
        data_dir: Option<String>,
        host: Option<String>,
        port: Option<String>,
    ) -> (res: Result<Config, ConfigError>)
        ensures
            match res {
                Ok(c) => {
                    &&& c.database_url@ == value_or(database_url, default_database_url())
                    &&& c.scan_storage_path@ == value_or(scan_storage_path, default_scan_storage_path())
                    &&& c.data_dir@ == value_or(data_dir, default_data_dir())
                    &&& c.host@ == resolve_host_spec(value_or(host, default_host()))
                    &&& parse_u16_spec(value_or(port, default_port())) == Some(c.port)
                },
                Err(ConfigError::InvalidPort(p)) => {
                    &&& p@ == value_or(port, default_port())
                    &&& parse_u16_spec(p@) is None
                },
            },
    {
        let port_text: String = string_or(port, "3000");
        let port_num: u16 = match parse_u16(port_text.as_str()) {
            Some(p) => p,
            None => {
                return Err(ConfigError::InvalidPort(port_text));
            },
        };
        let host_text: String = string_or(host, "localhost");
        Ok(
            Config {
                database_url: string_or(database_url, "sqlite:./card-vault.db"),
                scan_storage_path: string_or(scan_storage_path, "./scans"),
                data_dir: string_or(data_dir, "./data"),
                host: resolve_host(host_text.as_str()),
                port: port_num,
            },
        )
    }
}

} // verus!
