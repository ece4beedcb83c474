//! The settings that the listeners start from: the storage directory, the two
//! ports and the external base URL, read from a configuration text in INI form
//! with a default for each key that is left out.

use vstd::prelude::*;
use vstd::string::*;
use crate::address::{parse_error_text, parse_url, url_parse};

verus! {

/// A configuration as the `ini` crate holds it.
#[verifier::external_type_specification]
#[verifier::external_body]
pub struct ExIni(ini::Ini);

/// The error type of the `ini` crate's parser.
#[verifier::external_type_specification]
#[verifier::external_body]
pub struct ExIniParseError(ini::ParseError);

/// What the general section of `conf` holds, the section before any section
/// header: each of its keys with the first value given for it. Empty where
/// `conf` has no such section.
pub uninterp spec fn general(conf: ini::Ini) -> Map<Seq<char>, Seq<char>>;

/// What `ini::Ini::load_from_str` makes of `text`, as far as the general section
/// goes: its keys and values, or `None` where `text` is not in INI form.
pub uninterp spec fn parsed_general(text: Seq<char>) -> Option<Map<Seq<char>, Seq<char>>>;

/// Calls `ini::Ini::load_from_str`. Claimed of it: the outcome depends on
/// `text` alone, so the general section of what it gives is named
/// `parsed_general`; an error comes back as it is.
#[verifier::external_body]
fn load_ini(text: &str) -> (loaded: Result<ini::Ini, ini::ParseError>)
    ensures
        match loaded {
            Ok(conf) => parsed_general(text@) == Some(general(conf)),
            Err(_) => parsed_general(text@) is None,
        },
{
    ini::Ini::load_from_str(text)
}

/// Calls `ini::Ini::section` for the general section and that section's `get`
/// with `key`. Claimed of it: the value comes back exactly when the general section
/// holds `key`, and is the first one given for it.
#[verifier::external_body]
fn general_value(conf: &ini::Ini, key: &str) -> (value: Option<String>)
    ensures
        match value {
            Some(text) => general(*conf).contains_key(key@) && general(*conf)[key@] == text@,
            None => !general(*conf).contains_key(key@),
        },
{
    match conf.section(None::<String>) {
        Some(section) => match section.get(key) {
            Some(text) => Some(text.to_string()),
            None => None,
        },
        None => None,
    }
}

/// Calls `to_string` on an error of the `ini` crate's parser, which gives the
/// place and the description. Nothing is claimed of the text.
#[verifier::external_body]
fn ini_error_text(error: &ini::ParseError) -> (text: String) {
    error.to_string()
}

/// Why no settings came out of a configuration.
#[derive(Debug)]
pub enum ConfigError {
    /// The text is not in INI form; carries the parser's description.
    Syntax(String),
    /// The value of `port` is no number.
    Port,
    /// The value of `http_port` is no number.
    HttpPort,
    /// The external URL is no absolute URL; carries the parser's description.
    Url(String),
}

/// The values of the four keys as texts, defaults filled in but for the URL,
/// whose default depends on the HTTP port.
#[derive(Debug)]
pub struct Values {
    pub dir: String,
    pub port: String,
    pub http_port: String,
    pub url: Option<String>,
}

/// The settings that the listeners start from.
#[derive(Debug)]
pub struct Settings {
    /// The storage directory as configured; the program resolves it.
    pub dir: String,
    /// The port of the ingest listener.
    pub port: usize,
    /// The port of the retrieval service.
    pub http_port: usize,
    /// The external base URL in its serialized form.
    pub url: String,
}

/// `given` where there is one, else `default`.
pub open spec fn or_default(given: Option<Seq<char>>, default: Seq<char>) -> Seq<char> {
    match given {
        Some(text) => text,
        None => default,
    }
}

/// The value of `key` in `section`, if it holds one.
pub open spec fn value_of(section: Map<Seq<char>, Seq<char>>, key: Seq<char>) -> Option<
    Seq<char>,
> {
    if section.contains_key(key) {
        Some(section[key])
    } else {
        None
    }
}

/// The view of an optional text.
pub open spec fn text_of(value: Option<String>) -> Option<Seq<char>> {
    match value {
        Some(text) => Some(text@),
        None => None,
    }
}

impl Values {
    /// Fills in the defaults: `./files` for the directory, `9999` for the ingest
    /// port, `3000` for the HTTP port. The URL stays as it is given.
    pub fn with_defaults(
        dir: Option<String>,
        port: Option<String>,
        http_port: Option<String>,
        url: Option<String>,
    ) -> (values: Values)
        ensures
            values.dir@ == or_default(text_of(dir), "./files"@),
            values.port@ == or_default(text_of(port), "9999"@),
            values.http_port@ == or_default(text_of(http_port), "3000"@),
            values.url == url,
    {
        Values {
            dir: match dir {
                Some(text) => text,
                None => String::from_str("./files"),
            },
            port: match port {
                Some(text) => text,
                None => String::from_str("9999"),
            },
            http_port: match http_port {
                Some(text) => text,
                None => String::from_str("3000"),
            },
            url,
        }
    }
}

/// Reads the keys `dir`, `port`, `http_port` and `url` from the general section
/// of a configuration text and fills in the defaults. Fails exactly when the
/// text is not in INI form.
pub fn read_values(config_text: &str) -> (read: Result<Values, ConfigError>)
    ensures
        match parsed_general(config_text@) {
            Some(section) => read matches Ok(values) && values.dir@ == or_default(
                value_of(section, "dir"@),
                "./files"@,
            ) && values.port@ == or_default(value_of(section, "port"@), "9999"@)
                && values.http_port@ == or_default(value_of(section, "http_port"@), "3000"@)
                && text_of(values.url) == value_of(section, "url"@),
            None => read matches Err(ConfigError::Syntax(_)),
        },
{
    match load_ini(config_text) {
        Ok(conf) => {
            let dir = general_value(&conf, "dir");
            let port = general_value(&conf, "port");
            let http_port = general_value(&conf, "http_port");
            let url = general_value(&conf, "url");
            Ok(Values::with_defaults(dir, port, http_port, url))
        },
        Err(error) => Err(ConfigError::Syntax(ini_error_text(&error))),
    }
}

/// Whether `c` is an ASCII digit.
pub open spec fn is_digit(c: char) -> bool {
    0x30 <= c as u32 <= 0x39
}

/// The number that the decimal digits `digits` write; 0 for none.
pub open spec fn decimal_value(digits: Seq<char>) -> nat
    decreases digits.len(),
{
    if digits.len() == 0 {
        0
    } else {
        decimal_value(digits.drop_last()) * 10 + (digits.last() as u32 - 0x30) as nat
    }
}

/// `text` without the plus sign that it may start with.
pub open spec fn unsigned_part(text: Seq<char>) -> Seq<char> {
    if text.len() > 0 && text[0] == '+' {
        text.drop_first()
    } else {
        text
    }
}

/// Whether `digits` is made of ASCII digits alone.
pub open spec fn all_digits(digits: Seq<char>) -> bool {
    forall|i: int| 0 <= i < digits.len() ==> is_digit(#[trigger] digits[i])
}

/// The number that `text` writes: one or more decimal digits, after at most one
/// plus sign, whose value fits the machine word. Any other text writes none.
pub open spec fn number_of(text: Seq<char>) -> Option<usize> {
    let digits = unsigned_part(text);
    if digits.len() > 0 && all_digits(digits) && decimal_value(digits) <= usize::MAX {
        Some(decimal_value(digits) as usize)
    } else {
        None
    }
}

/// The value of a text grows with every digit that is put behind it.
proof fn lemma_decimal_value_grows(digits: Seq<char>, k: int)
    requires
        0 <= k <= digits.len(),
    ensures
        decimal_value(digits.take(k)) <= decimal_value(digits),
    decreases digits.len() - k,
{
    if k == digits.len() {
        assert(digits.take(k) =~= digits);
    } else {
        lemma_decimal_value_grows(digits.drop_last(), k);
        assert(digits.drop_last().take(k) =~= digits.take(k));
    }
}

/// Reads a port number as the standard library reads an unsigned integer:
/// decimal digits after at most one plus sign, no white space, no overflow.
pub fn parse_port(text: &str) -> (port: Option<usize>)
    ensures
        port == number_of(text@),
{
    let n: usize = text.unicode_len();
    let first: usize = if n > 0 && text.get_char(0) == '+' {
        1
    } else {
        0
    };
    let ghost digits = unsigned_part(text@);
    assert(digits =~= text@.skip(first as int));
    if first == n {
        return None;
    }
    let mut value: usize = 0;
    let mut i: usize = first;
    assert(digits.take(0) =~= Seq::<char>::empty());
    while i < n
        invariant
            first <= i <= n,
            n == text@.len(),
            digits == text@.skip(first as int),
            digits == unsigned_part(text@),
            all_digits(digits.take(i - first)),
            value == decimal_value(digits.take(i - first)),
        decreases n - i,
    {
        let c = text.get_char(i);
        let code: u32 = c as u32;
        let ghost longer = digits.take(i - first + 1);
        proof {
            assert(longer.drop_last() =~= digits.take(i - first));
            assert(longer.last() == c);
            assert(digits[i - first] == c);
        }
        if code < 0x30 || code > 0x39 {
            assert(!is_digit(digits[i - first]));
            return None;
        }
        let d: usize = (code - 0x30) as usize;
        proof {
            lemma_decimal_value_grows(digits, i - first + 1);
            assert(decimal_value(longer) == value * 10 + d);
        }
        if value > (usize::MAX - d) / 10 {
            assert(value * 10 + d > usize::MAX);
            return None;
        }
        value = value * 10 + d;
        proof {
            assert forall|j: int| 0 <= j < longer.len() implies is_digit(#[trigger] longer[j]) by {
                if j < longer.len() - 1 {
                    assert(longer[j] == digits.take(i - first)[j]);
                }
            }
        }
        i = i + 1;
    }
    assert(digits.take(n - first) =~= digits);
    Some(value)
}

/// The ten decimal digits in order.
pub open spec fn digit_chars() -> Seq<char> {
    "0123456789"@
}

/// `n` written in decimal digits, without leading zeros.
pub open spec fn decimal_text(n: nat) -> Seq<char>
    decreases n,
{
    if n < 10 {
        seq![digit_chars()[n as int]]
    } else {
        decimal_text(n / 10).push(digit_chars()[(n % 10) as int])
    }
}

/// Writes `n` in decimal digits.
pub fn number_text(n: usize) -> (text: String)
    ensures
        text@ == decimal_text(n as nat),
    decreases n,
{
    proof {
        reveal_strlit("0123456789");
    }
    let last = "0123456789".substring_char(n % 10, n % 10 + 1);
    assert(last@ =~= seq![digit_chars()[(n % 10) as int]]);
    if n < 10 {
        String::from_str(last)
    } else {
        let text = number_text(n / 10).concat(last);
        assert(text@ =~= decimal_text((n / 10) as nat).push(digit_chars()[(n % 10) as int]));
        text
    }
}

/// The external URL where none is configured: the retrieval service on this
/// machine.
pub open spec fn default_url_text(http_port: usize) -> Seq<char> {
    "http://localhost:"@ + decimal_text(http_port as nat)
}

/// The external URL where none is configured: `http://localhost:` and the HTTP
/// port.
pub fn default_url(http_port: usize) -> (text: String)
    ensures
        text@ == default_url_text(http_port),
{
    let port = number_text(http_port);
    String::from_str("http://localhost:").concat(port.as_str())
}

/// What `resolve` makes of the values once both ports are read: the settings
/// with the URL in its serialized form, or the URL's error.
pub open spec fn resolved_with(values: Values, port: usize, http_port: usize, read: Result<
    Settings,
    ConfigError,
>) -> bool {
    let url_text = or_default(text_of(values.url), default_url_text(http_port));
    match url_parse(url_text) {
        Some(serialized) => read matches Ok(settings) && settings.dir@ == values.dir@
            && settings.port == port && settings.http_port == http_port && settings.url@
            == serialized,
        None => read matches Err(ConfigError::Url(_)),
    }
}

/// Turns the values into settings: reads the two ports, takes the configured
/// URL or else the default for the HTTP port, and checks that it is an absolute
/// URL. The first value that fails, in the order ingest port, HTTP port, URL,
/// gives the error.
pub fn resolve(values: Values) -> (read: Result<Settings, ConfigError>)
    ensures
        match (number_of(values.port@), number_of(values.http_port@)) {
            (None, _) => read matches Err(ConfigError::Port),
            (Some(_), None) => read matches Err(ConfigError::HttpPort),
            (Some(port), Some(http_port)) => resolved_with(values, port, http_port, read),
        },
{
    let port = match parse_port(values.port.as_str()) {
        Some(port) => port,
        None => {
            return Err(ConfigError::Port);
        },
    };
    let http_port = match parse_port(values.http_port.as_str()) {
        Some(port) => port,
        None => {
            return Err(ConfigError::HttpPort);
        },
    };
    let url_text = match &values.url {
        Some(text) => text.clone(),
        None => default_url(http_port),
    };
    match parse_url(url_text.as_str()) {
        Ok(url) => Ok(Settings { dir: values.dir, port, http_port, url }),
        Err(error) => Err(ConfigError::Url(parse_error_text(&error))),
    }
}

} // verus!
