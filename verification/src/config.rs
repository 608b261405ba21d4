//! Configuration from environment variables.
//!
//! Reading the environment is the application's part: it hands the raw
//! values (absent, or the text of the variable) to [`Config::from_vars`],
//! which checks them and fills in the defaults.

use crate::encoding::{hex_decode, hex_decode_seq};
use crate::text::{
    chars_of, lower_chars, lower_seq, opt_string_view, owned, parse_u64_chars, parse_u64_seq, push_str, string_of,
    sub_chars, trim_seq, trim_str,
};
use vstd::prelude::*;

verus! {

// ---------------------------------------------------------------------------
// Errors
// ---------------------------------------------------------------------------

#[derive(Debug)]
pub enum ConfigError {
    /// A required variable is not set.
    Missing(&'static str),
    /// A variable is set to something unusable.
    Invalid(String),
}

/// The view of a [`ConfigError`]: `(true, name)` for a missing variable,
/// `(false, message)` for an invalid one.
impl View for ConfigError {
    type V = (bool, Seq<char>);

    open spec fn view(&self) -> (bool, Seq<char>) {
        match self {
            ConfigError::Missing(k) => (true, k@),
            ConfigError::Invalid(m) => (false, m@),
        }
    }
}

pub open spec fn missing(name: Seq<char>) -> (bool, Seq<char>) {
    (true, name)
}

pub open spec fn invalid(message: Seq<char>) -> (bool, Seq<char>) {
    (false, message)
}

/// The text of an error, as it is shown when the server refuses to start.
pub open spec fn config_error_message(e: (bool, Seq<char>)) -> Seq<char> {
    if e.0 {
        "missing required environment variable: "@ + e.1
    } else {
        "invalid configuration: "@ + e.1
    }
}

impl ConfigError {
    /// The error as text.
    pub fn message(&self) -> (r: String)
        ensures
            r@ == config_error_message(self@),
    {
        let mut s = String::new();
        match self {
            ConfigError::Missing(k) => {
                push_str(&mut s, "missing required environment variable: ");
                push_str(&mut s, k);
            },
            ConfigError::Invalid(m) => {
                push_str(&mut s, "invalid configuration: ");
                push_str(&mut s, m.as_str());
            },
        }
        s
    }
}

// ---------------------------------------------------------------------------
// Single settings
// ---------------------------------------------------------------------------

/// `CRYPTO_KEY`: after trimming, 64 hex characters (either case) giving 32
/// bytes; otherwise the error message.
pub open spec fn crypto_key_result(s: Seq<char>) -> Result<Seq<u8>, Seq<char>> {
    let b = vstd::utf8::encode_utf8(trim_seq(s));
    if b.len() != 64 {
        Err("CRYPTO_KEY must be 64 hex characters (32 bytes)"@)
    } else {
        match hex_decode_seq(b) {
            Some(k) => Ok(k),
            None => Err("CRYPTO_KEY is not valid hex"@),
        }
    }
}

/// Parses the 64-character hex `CRYPTO_KEY` into 32 bytes.
pub fn parse_crypto_key(s: &str) -> (r: Result<[u8; 32], ConfigError>)
    ensures
        match r {
            Ok(k) => crypto_key_result(s@) == Ok::<Seq<u8>, Seq<char>>(k@),
            Err(e) => crypto_key_result(s@) matches Err(m) && e@ == invalid(m),
        },
{
    let t = trim_str(s);
    let text = string_of(&t);
    let ts = text.as_str();
    assert(ts@ == t@);
    if ts.as_bytes().len() != 64 {
        return Err(ConfigError::Invalid(owned("CRYPTO_KEY must be 64 hex characters (32 bytes)")));
    }
    match hex_decode(ts) {
        None => Err(ConfigError::Invalid(owned("CRYPTO_KEY is not valid hex"))),
        Some(bytes) => {
            proof {
                let b = vstd::utf8::encode_utf8(ts@);
                assert(b.len() == 64);
                assert(hex_decode_seq(b) == Some(bytes@));
                assert(bytes@.len() == 32);
            }
            let mut key = [0u8; 32];
            let mut i: usize = 0;
            while i < 32
                invariant
                    i <= 32,
                    bytes@.len() == 32,
                    forall|j: int| 0 <= j < i ==> key@[j] == bytes@[j],
                    key@.len() == 32,
                decreases 32 - i,
            {
                key[i] = bytes[i];
                i += 1;
            }
            assert(key@ =~= bytes@);
            Ok(key)
        },
    }
}

/// A numeric setting: the default when unset, else the trimmed text parsed
/// as `u64` (`None` when it does not parse).
pub open spec fn u64_setting(value: Option<Seq<char>>, default: u64) -> Option<u64> {
    match value {
        None => Some(default),
        Some(v) => parse_u64_seq(trim_seq(v)),
    }
}

/// Reads a numeric setting; `Invalid("{name} must be a positive integer")`
/// when it is set and does not parse.
pub fn parse_u64_setting(name: &str, value: Option<&str>, default: u64) -> (r: Result<
    u64,
    ConfigError,
>)
    ensures
        match r {
            Ok(n) => u64_setting(crate::text::opt_view(value), default) == Some(n),
            Err(e) => u64_setting(crate::text::opt_view(value), default) is None && e@ == invalid(
                name@ + " must be a positive integer"@,
            ),
        },
{
    match value {
        None => Ok(default),
        Some(v) => {
            let t = trim_str(v);
            match parse_u64_chars(&t) {
                Some(n) => Ok(n),
                None => {
                    let mut m = owned(name);
                    push_str(&mut m, " must be a positive integer");
                    Err(ConfigError::Invalid(m))
                },
            }
        },
    }
}

/// The boolean a word stands for: `true`/`1`/`yes` or `false`/`0`/`no`.
pub open spec fn bool_word(w: Seq<char>) -> Option<bool> {
    if w == "true"@ || w == "1"@ || w == "yes"@ {
        Some(true)
    } else if w == "false"@ || w == "0"@ || w == "no"@ {
        Some(false)
    } else {
        None
    }
}

/// A boolean setting: the default when unset, else the trimmed text in
/// ASCII lower case read as a boolean word.
pub open spec fn bool_setting(value: Option<Seq<char>>, default: bool) -> Option<bool> {
    match value {
        None => Some(default),
        Some(v) => bool_word(lower_seq(trim_seq(v))),
    }
}

fn word_is(w: &Vec<char>, lit: &str) -> (r: bool)
    ensures
        r == (w@ == lit@),
{
    let l = chars_of(lit);
    crate::text::chars_eq(w, &l)
}

/// Reads a boolean setting; `Invalid("{name} must be true/false")` when it
/// is set to anything else.
pub fn parse_bool_setting(name: &str, value: Option<&str>, default: bool) -> (r: Result<
    bool,
    ConfigError,
>)
    ensures
        match r {
            Ok(b) => bool_setting(crate::text::opt_view(value), default) == Some(b),
            Err(e) => bool_setting(crate::text::opt_view(value), default) is None && e@ == invalid(
                name@ + " must be true/false"@,
            ),
        },
{
    match value {
        None => Ok(default),
        Some(v) => {
            let t = trim_str(v);
            let w = lower_chars(&t);
            if word_is(&w, "true") || word_is(&w, "1") || word_is(&w, "yes") {
                Ok(true)
            } else if word_is(&w, "false") || word_is(&w, "0") || word_is(&w, "no") {
                Ok(false)
            } else {
                let mut m = owned(name);
                push_str(&mut m, " must be true/false");
                Err(ConfigError::Invalid(m))
            }
        },
    }
}

// ---------------------------------------------------------------------------
// Durations
// ---------------------------------------------------------------------------

/// Seconds per unit suffix: `d`, `h`, `m`, `s` in either case.
pub open spec fn duration_unit(c: char) -> Option<u64> {
    if c == 'd' || c == 'D' {
        Some(86400)
    } else if c == 'h' || c == 'H' {
        Some(3600)
    } else if c == 'm' || c == 'M' {
        Some(60)
    } else if c == 's' || c == 'S' {
        Some(1)
    } else {
        None
    }
}

/// `"7d"`, `"12h"`, `"30m"`, `"45s"` or plain seconds, after trimming, as a
/// number of seconds; `None` for anything else.
pub open spec fn parse_duration_seq(s: Seq<char>) -> Option<int> {
    let t = trim_seq(s);
    if t.len() == 0 {
        None
    } else {
        match duration_unit(t.last()) {
            None => match parse_u64_seq(t) {
                Some(n) => Some(n as int),
                None => None,
            },
            Some(m) => match parse_u64_seq(t.drop_last()) {
                Some(n) => Some(n * m),
                None => None,
            },
        }
    }
}

/// The inputs on which the duration parser is defined: the last character
/// of the trimmed text is a single byte (the number and the unit are split
/// one byte before the end), and a number with a unit does not overflow
/// `u64` seconds when multiplied out.
pub open spec fn parse_duration_defined(s: Seq<char>) -> bool {
    let t = trim_seq(s);
    t.len() == 0 || ((t.last() as u32) < 128 && (parse_duration_seq(s) matches Some(n) ==> n
        <= u64::MAX))
}

fn unit_seconds(c: char) -> (r: Option<u64>)
    ensures
        r == duration_unit(c),
{
    if c == 'd' || c == 'D' {
        Some(86400)
    } else if c == 'h' || c == 'H' {
        Some(3600)
    } else if c == 'm' || c == 'M' {
        Some(60)
    } else if c == 's' || c == 'S' {
        Some(1)
    } else {
        None
    }
}

/// Parses `"7d"` / `"12h"` / `"30m"` / `"45s"` / plain seconds into a number
/// of seconds.
pub fn parse_duration(s: &str) -> (r: Option<u64>)
    requires
        parse_duration_defined(s@),
    ensures
        match r {
            Some(n) => parse_duration_seq(s@) == Some(n as int),
            None => parse_duration_seq(s@) is None,
        },
{
    let t = trim_str(s);
    if t.len() == 0 {
        return None;
    }
    let last = t[t.len() - 1];
    assert(t@.last() == last);
    match unit_seconds(last) {
        None => parse_u64_chars(&t),
        Some(m) => {
            let num = sub_chars(&t, 0, t.len() - 1);
            assert(num@ =~= t@.drop_last());
            match parse_u64_chars(&num) {
                Some(n) => Some(n * m),
                None => None,
            }
        },
    }
}

/// Is `parse_duration` defined on `s`? The application asks this before
/// calling it, and treats `false` as the fatal error it is.
pub fn duration_input_ok(s: &str) -> (r: bool)
    ensures
        r == parse_duration_defined(s@),
{
    let t = trim_str(s);
    if t.len() == 0 {
        return true;
    }
    let last = t[t.len() - 1];
    assert(t@.last() == last);
    if (last as u32) >= 128 {
        return false;
    }
    match unit_seconds(last) {
        None => true,
        Some(m) => {
            let num = sub_chars(&t, 0, t.len() - 1);
            assert(num@ =~= t@.drop_last());
            match parse_u64_chars(&num) {
                Some(n) => {
                    assert((n <= u64::MAX / m) == (n * m <= u64::MAX)) by (nonlinear_arith)
                        requires
                            m > 0,
                    ;
                    n <= u64::MAX / m
                },
                None => true,
            }
        },
    }
}

// ---------------------------------------------------------------------------
// The whole configuration
// ---------------------------------------------------------------------------

/// The raw environment: each variable absent or its text.
#[derive(Debug, Clone)]
pub struct ConfigVars {
    pub access_key: Option<String>,
    pub crypto_key: Option<String>,
    pub max_attachment_bytes: Option<String>,
    pub max_request_bytes: Option<String>,
    pub max_content_bytes: Option<String>,
    pub page_size: Option<String>,
    pub session_ttl: Option<String>,
    pub cookie_secure: Option<String>,
    pub listen_addr: Option<String>,
    pub data_dir: Option<String>,
    pub templates_dir: Option<String>,
    pub static_dir: Option<String>,
}

/// The server's configuration. Paths are kept as text, the session lifetime
/// as whole seconds.
#[derive(Debug, Clone)]
pub struct Config {
    pub access_key: String,
    pub crypto_key: [u8; 32],
    pub max_attachment_bytes: u64,
    pub max_request_bytes: u64,
    pub max_content_bytes: usize,
    pub page_size: i64,
    pub session_ttl_secs: u64,
    pub cookie_secure: bool,
    pub listen_addr: String,
    pub data_dir: String,
    pub templates_dir: String,
    pub static_dir: String,
}

pub const DEFAULT_MAX_ATTACHMENT_BYTES: u64 = 2097152;

pub const DEFAULT_MAX_REQUEST_BYTES: u64 = 8388608;

pub const DEFAULT_MAX_CONTENT_BYTES: u64 = 1048576;

pub const DEFAULT_PAGE_SIZE: u64 = 20;

/// Seven days.
pub const DEFAULT_SESSION_TTL_SECS: u64 = 604800;

/// A duration setting: the default when unset, else the parsed text.
pub open spec fn duration_setting(value: Option<Seq<char>>, default: u64) -> Option<int> {
    match value {
        None => Some(default as int),
        Some(v) => parse_duration_seq(v),
    }
}

/// A text setting: the default when unset.
pub open spec fn text_setting(value: Option<Seq<char>>, default: Seq<char>) -> Seq<char> {
    match value {
        None => default,
        Some(v) => v,
    }
}

/// Do the checks before `SESSION_TTL` pass?
pub open spec fn checks_before_ttl_pass(v: ConfigVars) -> bool {
    &&& opt_string_view(v.access_key) matches Some(a) && a.len() >= 16
    &&& opt_string_view(v.crypto_key) matches Some(c) && crypto_key_result(c) is Ok
    &&& u64_setting(opt_string_view(v.max_attachment_bytes), DEFAULT_MAX_ATTACHMENT_BYTES) is Some
    &&& u64_setting(opt_string_view(v.max_request_bytes), DEFAULT_MAX_REQUEST_BYTES) is Some
    &&& u64_setting(opt_string_view(v.max_content_bytes), DEFAULT_MAX_CONTENT_BYTES) is Some
    &&& u64_setting(opt_string_view(v.page_size), DEFAULT_PAGE_SIZE) is Some
}

/// The first check that fails, in the order the variables are read; `None`
/// when the configuration is usable.
pub open spec fn config_error(v: ConfigVars) -> Option<(bool, Seq<char>)> {
    match opt_string_view(v.access_key) {
        None => Some(missing("ACCESS_KEY"@)),
        Some(a) => if a.len() < 16 {
            Some(invalid("ACCESS_KEY must be at least 16 characters"@))
        } else {
            match opt_string_view(v.crypto_key) {
                None => Some(missing("CRYPTO_KEY"@)),
                Some(c) => match crypto_key_result(c) {
                    Err(m) => Some(invalid(m)),
                    Ok(_) => if u64_setting(
                        opt_string_view(v.max_attachment_bytes),
                        DEFAULT_MAX_ATTACHMENT_BYTES,
                    ) is None {
                        Some(invalid("MAX_ATTACHMENT_BYTES"@ + " must be a positive integer"@))
                    } else if u64_setting(
                        opt_string_view(v.max_request_bytes),
                        DEFAULT_MAX_REQUEST_BYTES,
                    ) is None {
                        Some(invalid("MAX_REQUEST_BYTES"@ + " must be a positive integer"@))
                    } else if u64_setting(
                        opt_string_view(v.max_content_bytes),
                        DEFAULT_MAX_CONTENT_BYTES,
                    ) is None {
                        Some(invalid("MAX_CONTENT_BYTES"@ + " must be a positive integer"@))
                    } else if u64_setting(opt_string_view(v.page_size), DEFAULT_PAGE_SIZE) is None {
                        Some(invalid("PAGE_SIZE"@ + " must be a positive integer"@))
                    } else if duration_setting(
                        opt_string_view(v.session_ttl),
                        DEFAULT_SESSION_TTL_SECS,
                    ) is None {
                        Some(invalid("SESSION_TTL must be like 7d/12h/30m/seconds"@))
                    } else if bool_setting(opt_string_view(v.cookie_secure), true) is None {
                        Some(invalid("COOKIE_SECURE"@ + " must be true/false"@))
                    } else {
                        None
                    },
                },
            }
        },
    }
}

fn opt_str(o: &Option<String>) -> (r: Option<&str>)
    ensures
        crate::text::opt_view(r) == opt_string_view(*o),
{
    match o {
        Some(s) => Some(s.as_str()),
        None => None,
    }
}

fn text_or(o: &Option<String>, default: &str) -> (r: String)
    ensures
        r@ == text_setting(opt_string_view(*o), default@),
{
    match o {
        Some(s) => owned(s.as_str()),
        None => owned(default),
    }
}

impl Config {
    /// Checks the raw variables and fills in the defaults.
    pub fn from_vars(v: &ConfigVars) -> (r: Result<Config, ConfigError>)
        requires
            checks_before_ttl_pass(*v) ==> (opt_string_view(v.session_ttl) matches Some(t)
                ==> parse_duration_defined(t)),
        ensures
            match r {
                Err(e) => config_error(*v) == Some(e@),
                Ok(c) => {
                    &&& config_error(*v) is None
                    &&& opt_string_view(v.access_key) == Some(c.access_key@)
                    &&& opt_string_view(v.crypto_key) matches Some(k) && crypto_key_result(k) == Ok::<
                        Seq<u8>,
                        Seq<char>,
                    >(c.crypto_key@)
                    &&& u64_setting(
                        opt_string_view(v.max_attachment_bytes),
                        DEFAULT_MAX_ATTACHMENT_BYTES,
                    ) == Some(c.max_attachment_bytes)
                    &&& u64_setting(opt_string_view(v.max_request_bytes), DEFAULT_MAX_REQUEST_BYTES)
                        == Some(c.max_request_bytes)
                    &&& u64_setting(opt_string_view(v.max_content_bytes), DEFAULT_MAX_CONTENT_BYTES)
                        matches Some(n) && c.max_content_bytes == n as usize
                    &&& u64_setting(opt_string_view(v.page_size), DEFAULT_PAGE_SIZE) matches Some(n)
                        && c.page_size == n as i64
                    &&& duration_setting(opt_string_view(v.session_ttl), DEFAULT_SESSION_TTL_SECS)
                        == Some(c.session_ttl_secs as int)
                    &&& bool_setting(opt_string_view(v.cookie_secure), true) == Some(c.cookie_secure)
                    &&& c.listen_addr@ == text_setting(opt_string_view(v.listen_addr), "0.0.0.0:8080"@)
                    &&& c.data_dir@ == text_setting(opt_string_view(v.data_dir), "./data"@)
                    &&& c.templates_dir@ == text_setting(
                        opt_string_view(v.templates_dir),
                        "./templates"@,
                    )
                    &&& c.static_dir@ == text_setting(opt_string_view(v.static_dir), "./static"@)
                },
            },
    {
        let access_key = match &v.access_key {
            None => return Err(ConfigError::Missing("ACCESS_KEY")),
            Some(a) => a,
        };
        if chars_of(access_key.as_str()).len() < 16 {
            return Err(
                ConfigError::Invalid(owned("ACCESS_KEY must be at least 16 characters")),
            );
        }
        let crypto_key = match &v.crypto_key {
            None => return Err(ConfigError::Missing("CRYPTO_KEY")),
            Some(c) => match parse_crypto_key(c.as_str()) {
                Err(e) => return Err(e),
                Ok(k) => k,
            },
        };
        let max_attachment_bytes = match parse_u64_setting(
            "MAX_ATTACHMENT_BYTES",
            opt_str(&v.max_attachment_bytes),
            DEFAULT_MAX_ATTACHMENT_BYTES,
        ) {
            Err(e) => return Err(e),
            Ok(n) => n,
        };
        let max_request_bytes = match parse_u64_setting(
            "MAX_REQUEST_BYTES",
            opt_str(&v.max_request_bytes),
            DEFAULT_MAX_REQUEST_BYTES,
        ) {
            Err(e) => return Err(e),
            Ok(n) => n,
        };
        let max_content_bytes = match parse_u64_setting(
            "MAX_CONTENT_BYTES",
            opt_str(&v.max_content_bytes),
            DEFAULT_MAX_CONTENT_BYTES,
        ) {
            Err(e) => return Err(e),
            Ok(n) => n,
        };
        let page_size = match parse_u64_setting(
            "PAGE_SIZE",
            opt_str(&v.page_size),
            DEFAULT_PAGE_SIZE,
        ) {
            Err(e) => return Err(e),
            Ok(n) => n,
        };
        let session_ttl_secs = match &v.session_ttl {
            None => DEFAULT_SESSION_TTL_SECS,
            Some(t) => match parse_duration(t.as_str()) {
                Some(n) => n,
                None => {
                    return Err(
                        ConfigError::Invalid(owned("SESSION_TTL must be like 7d/12h/30m/seconds")),
                    )
                },
            },
        };
        let cookie_secure = match parse_bool_setting(
            "COOKIE_SECURE",
            opt_str(&v.cookie_secure),
            true,
        ) {
            Err(e) => return Err(e),
            Ok(b) => b,
        };
        Ok(Config {
            access_key: owned(access_key.as_str()),
            crypto_key,
            max_attachment_bytes,
            max_request_bytes,
            max_content_bytes: #[verifier::truncate] (max_content_bytes as usize),
            page_size: #[verifier::truncate] (page_size as i64),
            session_ttl_secs,
            cookie_secure,
            listen_addr: text_or(&v.listen_addr, "0.0.0.0:8080"),
            data_dir: text_or(&v.data_dir, "./data"),
            templates_dir: text_or(&v.templates_dir, "./templates"),
            static_dir: text_or(&v.static_dir, "./static"),
        })
    }
}

/// A boolean setting reads, once trimmed and in ASCII lower case, `true`,
/// `1` or `yes` as true and `false`, `0` or `no` as false; any other text
/// is refused, and an unset setting takes its default.
pub proof fn law_bool_words(v: Seq<char>, default: bool)
    ensures
        bool_setting(None, default) == Some(default),
        ({
            let w = lower_seq(trim_seq(v));
            &&& (w == "true"@ || w == "1"@ || w == "yes"@) ==> bool_setting(Some(v), default)
                == Some(true)
            &&& (w == "false"@ || w == "0"@ || w == "no"@) ==> bool_setting(Some(v), default)
                == Some(false)
            &&& !(w == "true"@ || w == "1"@ || w == "yes"@ || w == "false"@ || w == "0"@ || w
                == "no"@) ==> bool_setting(Some(v), default) is None
        }),
{
    reveal_strlit("true");
    reveal_strlit("1");
    reveal_strlit("yes");
    reveal_strlit("false");
    reveal_strlit("0");
    reveal_strlit("no");
    assert("true"@.len() == 4 && "1"@.len() == 1 && "yes"@.len() == 3);
    assert("false"@.len() == 5 && "0"@.len() == 1 && "no"@.len() == 2);
    assert("1"@[0] != "0"@[0]);
    assert("true"@ != "false"@ && "true"@ != "0"@ && "true"@ != "no"@);
    assert("1"@ != "false"@ && "1"@ != "0"@ && "1"@ != "no"@);
    assert("yes"@ != "false"@ && "yes"@ != "0"@ && "yes"@ != "no"@);
}

/// The defaults of the settings: 2 MiB (2097152 bytes) per attachment,
/// 8 MiB (8388608 bytes) per request,
/// 1 MiB of content, 20 records a page, sessions of seven days.
pub proof fn law_setting_defaults()
    ensures
        u64_setting(None, DEFAULT_MAX_ATTACHMENT_BYTES) == Some(2097152u64),
        u64_setting(None, DEFAULT_MAX_REQUEST_BYTES) == Some(8388608u64),
        u64_setting(None, DEFAULT_MAX_CONTENT_BYTES) == Some(1048576u64),
        u64_setting(None, DEFAULT_PAGE_SIZE) == Some(20u64),
        duration_setting(None, DEFAULT_SESSION_TTL_SECS) == Some(7int * 24 * 3600),
{
}

/// A duration is a number followed by `d`, `h`, `m` or `s` (either case),
/// counted in days, hours, minutes or seconds, or a plain number of
/// seconds; whitespace around it does not count.
pub proof fn law_duration_units(s: Seq<char>, digits: Seq<char>, u: char)
    ensures
        parse_u64_seq(trim_seq(s)) matches Some(n) ==> parse_duration_seq(s) == Some(n as int),
        trim_seq(s) == digits + seq![u] ==> (parse_u64_seq(digits) matches Some(n) ==> ({
            &&& (u == 'd' || u == 'D') ==> parse_duration_seq(s) == Some(n * 86400)
            &&& (u == 'h' || u == 'H') ==> parse_duration_seq(s) == Some(n * 3600)
            &&& (u == 'm' || u == 'M') ==> parse_duration_seq(s) == Some(n * 60)
            &&& (u == 's' || u == 'S') ==> parse_duration_seq(s) == Some(n as int)
        })),
{
    let t = trim_seq(s);
    if parse_u64_seq(t) is Some {
        let d = if t.len() > 0 && t[0] == '+' {
            t.drop_first()
        } else {
            t
        };
        assert(t.last() == d.last());
        assert(crate::text::is_digit(d[d.len() - 1]));
        assert(duration_unit(t.last()) is None);
    }
    if t == digits + seq![u] && parse_u64_seq(digits) is Some {
        let n = parse_u64_seq(digits)->Some_0;
        assert(t.len() > 0);
        assert(t.last() == u);
        assert(t.drop_last() =~= digits);
        if u == 'd' || u == 'D' {
            assert(duration_unit(u) == Some(86400u64));
            assert(duration_unit(t.last()) == Some(86400u64));
            assert(parse_u64_seq(t.drop_last()) == Some(n));
            assert(parse_duration_seq(s) == Some(n * 86400));
        } else if u == 'h' || u == 'H' {
            assert(duration_unit(u) == Some(3600u64));
            assert(duration_unit(t.last()) == Some(3600u64));
            assert(parse_u64_seq(t.drop_last()) == Some(n));
            assert(parse_duration_seq(s) == Some(n * 3600));
        } else if u == 'm' || u == 'M' {
            assert(duration_unit(u) == Some(60u64));
            assert(duration_unit(t.last()) == Some(60u64));
            assert(parse_u64_seq(t.drop_last()) == Some(n));
            assert(parse_duration_seq(s) == Some(n * 60));
        } else if u == 's' || u == 'S' {
            assert(duration_unit(u) == Some(1u64));
            assert(duration_unit(t.last()) == Some(1u64));
            assert(parse_u64_seq(t.drop_last()) == Some(n));
            assert(n * 1u64 == n as int);
            assert(parse_duration_seq(s) == Some(n * 1u64));
        }
    }
}

/// The access key must hold at least 16 characters, and is checked first:
/// without one the server names `ACCESS_KEY` as missing, with a shorter
/// one it refuses it; then `CRYPTO_KEY` must be present.
pub proof fn law_access_key_first(v: ConfigVars)
    ensures
        opt_string_view(v.access_key) is None ==> config_error(v) == Some(missing("ACCESS_KEY"@)),
        (opt_string_view(v.access_key) matches Some(a) && a.len() < 16) ==> config_error(v) == Some(
            invalid("ACCESS_KEY must be at least 16 characters"@),
        ),
        (opt_string_view(v.access_key) matches Some(a) && a.len() >= 16 && opt_string_view(
            v.crypto_key,
        ) is None) ==> config_error(v) == Some(missing("CRYPTO_KEY"@)),
{
}

/// A `CRYPTO_KEY` whose trimmed text is not 64 bytes long is refused as
/// such; the lower-case hex text of 32 bytes reads back as those bytes.
pub proof fn law_crypto_key(s: Seq<char>, k: Seq<u8>)
    ensures
        vstd::utf8::encode_utf8(trim_seq(s)).len() != 64 ==> crypto_key_result(s) == Err::<
            Seq<u8>,
            Seq<char>,
        >("CRYPTO_KEY must be 64 hex characters (32 bytes)"@),
        (k.len() == 32 && trim_seq(s) == crate::encoding::hex_lower_seq(k)) ==> crypto_key_result(s)
            == Ok::<Seq<u8>, Seq<char>>(k),
{
    if k.len() == 32 && trim_seq(s) == crate::encoding::hex_lower_seq(k) {
        crate::encoding::lemma_hex_lower_reads_back(k);
    }
}

} // verus!
