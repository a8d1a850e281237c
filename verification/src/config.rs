//! Server configuration: the sections of `jas.toml`, their defaults, how the
//! outcome of reading the file becomes the running configuration, and how the
//! 32-byte secret key is derived from its hex form.

use vstd::prelude::*;

verus! {

/// Address and log level of the HTTP server.
#[derive(Debug, Clone)]
pub struct ServerConfig {
    pub bind: String,
    pub log_level: String,
}

/// Where the database and stored IPAs live.
#[derive(Debug, Clone)]
pub struct StorageConfig {
    pub database_path: String,
    pub ipa_dir: String,
}

/// How often the refresh scheduler runs and how far ahead it refreshes.
#[derive(Debug, Clone)]
pub struct SchedulerConfig {
    pub interval_hours: u64,
    pub refresh_window_days: i64,
    pub worker_threads: usize,
}

/// The hex-encoded secret key used to encrypt stored secrets.
#[derive(Debug, Clone)]
pub struct SecurityConfig {
    pub secret_key: String,
}

/// Whether mDNS discovery runs, and on which interface.
#[derive(Debug, Clone)]
pub struct DiscoveryConfig {
    pub mdns_enabled: bool,
    pub mdns_interface: String,
}

/// The whole configuration; every section falls back to its default.
#[derive(Debug, Clone)]
pub struct Config {
    pub server: ServerConfig,
    pub storage: StorageConfig,
    pub scheduler: SchedulerConfig,
    pub security: SecurityConfig,
    pub discovery: DiscoveryConfig,
}

impl ServerConfig {
    pub open spec fn is_default(&self) -> bool {
        &&& self.bind@ == "0.0.0.0:3000"@
        &&& self.log_level@ == "info"@
    }
}

impl StorageConfig {
    pub open spec fn is_default(&self) -> bool {
        &&& self.database_path@ == "jas.db"@
        &&& self.ipa_dir@ == "ipas"@
    }
}

impl SchedulerConfig {
    pub open spec fn is_default(&self) -> bool {
        &&& self.interval_hours == 2
        &&& self.refresh_window_days == 3
        &&& self.worker_threads == 2
    }
}

impl SecurityConfig {
    pub open spec fn is_default(&self) -> bool {
        self.secret_key@ == Seq::<char>::empty()
    }
}

impl DiscoveryConfig {
    pub open spec fn is_default(&self) -> bool {
        &&& self.mdns_enabled
        &&& self.mdns_interface@ == Seq::<char>::empty()
    }
}

impl Config {
    pub open spec fn is_default(&self) -> bool {
        &&& self.server.is_default()
        &&& self.storage.is_default()
        &&& self.scheduler.is_default()
        &&& self.security.is_default()
        &&& self.discovery.is_default()
    }
}

impl Default for ServerConfig {
    fn default() -> (res: Self)
        ensures
            res.is_default(),
    {
        ServerConfig { bind: String::from_str("0.0.0.0:3000"), log_level: String::from_str("info") }
    }
}

impl Default for StorageConfig {
    fn default() -> (res: Self)
        ensures
            res.is_default(),
    {
        StorageConfig { database_path: String::from_str("jas.db"), ipa_dir: String::from_str("ipas") }
    }
}

impl Default for SchedulerConfig {
    fn default() -> (res: Self)
        ensures
            res.is_default(),
    {
        SchedulerConfig { interval_hours: 2, refresh_window_days: 3, worker_threads: 2 }
    }
}

impl Default for SecurityConfig {
    fn default() -> (res: Self)
        ensures
            res.is_default(),
    {
        SecurityConfig { secret_key: String::new() }
    }
}

impl Default for DiscoveryConfig {
    fn default() -> (res: Self)
        ensures
            res.is_default(),
    {
        DiscoveryConfig { mdns_enabled: true, mdns_interface: String::new() }
    }
}

impl Default for Config {
    fn default() -> (res: Self)
        ensures
            res.is_default(),
    {
        Config {
            server: ServerConfig::default(),
            storage: StorageConfig::default(),
            scheduler: SchedulerConfig::default(),
            security: SecurityConfig::default(),
            discovery: DiscoveryConfig::default(),
        }
    }
}


/// Where `Config::load` looks for the file: the value of `JAS_CONFIG` when it
/// is set (and valid Unicode), `jas.toml` otherwise.
pub fn config_path(env_value: Option<String>) -> (path: String)
    ensures
        path@ == (match env_value {
            Some(p) => p@,
            None => "jas.toml"@,
        }),
{
    match env_value {
        Some(p) => p,
        None => String::from_str("jas.toml"),
    }
}

/// What came of looking for, reading and parsing the configuration file.
pub enum LoadOutcome {
    /// No file at the configured path.
    Missing,
    /// The file exists but could not be read.
    ReadFailed,
    /// The file was read but is not a valid configuration.
    ParseFailed,
    /// The file parsed into this configuration.
    Parsed(Config),
}

impl Config {
    /// The configuration the server runs with after an attempt to load the
    /// file: the parsed one, or the defaults whenever the file is missing,
    /// unreadable or invalid.
    pub fn from_load_outcome(outcome: LoadOutcome) -> (cfg: Config)
        ensures
            match outcome {
                LoadOutcome::Parsed(c) => cfg == c,
                _ => cfg.is_default(),
            },
    {
        match outcome {
            LoadOutcome::Parsed(c) => c,
            _ => Config::default(),
        }
    }
}

/// The value of one hexadecimal digit, upper or lower case.
pub open spec fn hex_digit_value(c: char) -> Option<int> {
    if '0' <= c && c <= '9' {
        Some(c as int - '0' as int)
    } else if 'a' <= c && c <= 'f' {
        Some(c as int - 'a' as int + 10)
    } else if 'A' <= c && c <= 'F' {
        Some(c as int - 'A' as int + 10)
    } else {
        None
    }
}

/// The bytes that a hex string stands for: defined when the string has an
/// even number of characters, all of them hex digits; each pair of digits,
/// high nibble first, gives one byte.
pub open spec fn hex_decoded(s: Seq<char>) -> Option<Seq<u8>> {
    if s.len() % 2 == 0 && (forall|i: int| 0 <= i < s.len() ==> (#[trigger] hex_digit_value(s[i])) is Some) {
        Some(Seq::new((s.len() / 2) as nat, |i: int|
            (16 * hex_digit_value(s[2 * i]).unwrap() + hex_digit_value(s[2 * i + 1]).unwrap()) as u8))
    } else {
        None
    }
}

#[verifier::external_type_specification]
#[verifier::external_body]
pub struct ExFromHexError(hex::FromHexError);

/// Calls `hex::decode` on the UTF-8 bytes of `s`. The crate rejects an odd
/// length and any byte that is not `0-9`, `a-f` or `A-F`, and otherwise turns
/// each pair of digits into one byte, high nibble first. Every byte of a
/// non-ASCII character is at least 0x80 and so rejected, which is why the
/// claim can be stated over the characters of `s`: it succeeds exactly when
/// `hex_decoded(s@)` is defined, with those bytes. Which error it reports is
/// not stated.
#[verifier::external_body]
fn hex_decode(s: &str) -> (res: Result<Vec<u8>, hex::FromHexError>)
    ensures
        res is Ok <==> hex_decoded(s@) is Some,
        res matches Ok(bytes) ==> hex_decoded(s@) == Some(bytes@),
{
    hex::decode(s)
}

/// The key text in force: the `JAS_SECRET_KEY` value when it is set, even to
/// the empty string, the configured one otherwise.
pub open spec fn selected_secret_key(configured: Seq<char>, env_key: Option<Seq<char>>) -> Seq<char> {
    match env_key {
        Some(k) => k,
        None => configured,
    }
}

/// The 32 key bytes derived from the key text: all zero when the text is
/// empty or not valid hex; otherwise the decoded bytes, cut to 32 or padded
/// with zeros up to 32.
pub open spec fn secret_key_material(key: Seq<char>) -> Seq<u8> {
    if key.len() == 0 {
        Seq::new(32, |i: int| 0u8)
    } else {
        match hex_decoded(key) {
            Some(bytes) => Seq::new(32, |i: int| if i < bytes.len() { bytes[i] } else { 0u8 }),
            None => Seq::new(32, |i: int| 0u8),
        }
    }
}

impl Config {
    /// The 32-byte secret key. `env_key` is the value of `JAS_SECRET_KEY`, if
    /// it is set; it takes precedence over `security.secret_key`.
    pub fn secret_key_bytes(&self, env_key: Option<String>) -> (key: [u8; 32])
        ensures
            key@ == secret_key_material(
                selected_secret_key(self.security.secret_key@, match env_key {
                    Some(k) => Some(k@),
                    None => None,
                }),
            ),
            env_key matches Some(k) ==> key@ == secret_key_material(k@),
            env_key is None ==> key@ == secret_key_material(self.security.secret_key@),
            ({
                let text = selected_secret_key(self.security.secret_key@, match env_key {
                    Some(k) => Some(k@),
                    None => None,
                });
                text.len() > 0 && hex_decoded(text) is Some ==> {
                    let bytes = hex_decoded(text).unwrap();
                    &&& forall|i: int| 0 <= i < 32 && i < bytes.len() ==> key@[i] == bytes[i]
                    &&& forall|i: int| bytes.len() <= i < 32 ==> key@[i] == 0u8
                }
            }),
    {
        let key_str: String = match env_key {
            Some(k) => k,
            None => self.security.secret_key.clone(),
        };
        if key_str.as_str().is_empty() {
            let zeros = [0u8; 32];
            assert(zeros@ =~= secret_key_material(key_str@));
            return zeros;
        }
        let bytes: Vec<u8> = match hex_decode(key_str.as_str()) {
            Ok(b) => b,
            Err(_) => {
                let zeros = [0u8; 32];
                assert(zeros@ =~= secret_key_material(key_str@));
                return zeros;
            },
        };
        let mut out = [0u8; 32];
        let len: usize = if bytes.len() < 32 { bytes.len() } else { 32 };
        let mut i: usize = 0;
        while i < len
            invariant
                len <= 32,
                len <= bytes@.len(),
                i <= len,
                forall|j: int| 0 <= j < i ==> out@[j] == bytes@[j],
                forall|j: int| i <= j < 32 ==> out@[j] == 0u8,
            decreases len - i,
        {
            out[i] = bytes[i];
            i = i + 1;
        }
        assert(out@ =~= secret_key_material(key_str@));
        proof {
            law_key_is_decoded_prefix(key_str@);
        }
        out
    }
}


/// A key written as 64 hex digits (the intended form) yields exactly the 32
/// bytes it encodes.
pub proof fn law_full_hex_key_is_used_as_is(key: Seq<char>)
    requires
        key.len() == 64,
        hex_decoded(key) is Some,
    ensures
        secret_key_material(key) == hex_decoded(key).unwrap(),
{
    assert(secret_key_material(key) =~= hex_decoded(key).unwrap());
}

/// Whatever the key text, the derived key is 32 bytes, and it is all zeros
/// unless the text is non-empty valid hex.
pub proof fn law_secret_key_shape(key: Seq<char>)
    ensures
        secret_key_material(key).len() == 32,
        (key.len() == 0 || hex_decoded(key) is None) ==> secret_key_material(key) == Seq::new(32, |i: int| 0u8),
{
}


/// For any non-empty key text that is valid hex, the derived key starts with
/// the decoded bytes (as many of them as fit in 32) and is zero after them.
pub proof fn law_key_is_decoded_prefix(text: Seq<char>)
    ensures
        text.len() > 0 && hex_decoded(text) is Some ==> {
            let bytes = hex_decoded(text).unwrap();
            let key = secret_key_material(text);
            &&& key.len() == 32
            &&& forall|i: int| 0 <= i < 32 && i < bytes.len() ==> key[i] == bytes[i]
            &&& forall|i: int| bytes.len() <= i < 32 ==> key[i] == 0u8
        },
{
}

/// Said over the digits themselves: for a non-empty text of an even number
/// of hex digits, byte `i` of the key is the pair of digits at `2i`, high
/// nibble first, for every pair that fits in 32 bytes; the rest is zero.
pub proof fn law_key_from_digit_pairs(text: Seq<char>)
    requires
        text.len() > 0,
        text.len() % 2 == 0,
        forall|j: int| 0 <= j < text.len() ==> (#[trigger] hex_digit_value(text[j])) is Some,
    ensures
        forall|i: int| 0 <= i < 32 && 2 * i + 1 < text.len() ==> secret_key_material(text)[i]
            == (16 * hex_digit_value(text[2 * i]).unwrap() + hex_digit_value(text[2 * i + 1]).unwrap()) as u8,
        forall|i: int| text.len() <= 2 * i && i < 32 ==> secret_key_material(text)[i] == 0u8,
{
    assert(hex_decoded(text) is Some);
}

/// The value of a hex digit, stated over its character code.
pub proof fn law_hex_digit_values(c: char)
    ensures
        ('0' <= c <= '9') ==> hex_digit_value(c) == Some(c as int - 48),
        ('a' <= c <= 'f') ==> hex_digit_value(c) == Some(c as int - 87),
        ('A' <= c <= 'F') ==> hex_digit_value(c) == Some(c as int - 55),
        !('0' <= c <= '9' || 'a' <= c <= 'f' || 'A' <= c <= 'F') ==> hex_digit_value(c) is None,
{
}


/// The empty key text, and any text that is not valid hex, give the all-zero
/// key; so does any text in which some character is not a hex digit.
pub proof fn law_unusable_key_is_zero(text: Seq<char>)
    ensures
        text.len() == 0 ==> forall|i: int| 0 <= i < 32 ==> secret_key_material(text)[i] == 0u8,
        text.len() % 2 == 1 ==> forall|i: int| 0 <= i < 32 ==> secret_key_material(text)[i] == 0u8,
        (exists|j: int| 0 <= j < text.len() && (#[trigger] hex_digit_value(text[j])) is None)
            ==> forall|i: int| 0 <= i < 32 ==> secret_key_material(text)[i] == 0u8,
{
}

} // verus!
