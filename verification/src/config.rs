//! The client configuration: the address of the signaling server, read
//! from the `[server]` section of an INI file, and the file written when
//! none can be read.

use vstd::prelude::*;
use vstd::string::*;

verus! {

/// Where the signaling server listens.
#[derive(Debug, Clone, PartialEq, Eq)]
pub struct Config {
    pub host: String,
    pub port: u16,
}

impl View for Config {
    type V = (Seq<char>, u16);

    open spec fn view(&self) -> (Seq<char>, u16) {
        (self.host@, self.port)
    }
}

/// Why a configuration file that could be read is not a usable configuration.
#[derive(Debug, Clone, Copy, PartialEq, Eq)]
pub enum ConfigError {
    /// The `[server]` section has no `host` (or there is no such section).
    MissingHost,
    /// The `[server]` section has no `port`.
    MissingPort,
    /// The `port` value is not a number from 0 to 65535.
    InvalidPort,
}

#[verifier::external_type_specification]
#[verifier::external_body]
pub struct ExIni(ini::Ini);

#[verifier::external_type_specification]
#[verifier::external_body]
pub struct ExIniParseError(ini::ParseError);

/// The properties of one section of an INI document: key-value pairs in order.
pub type IniProperties = Seq<(Seq<char>, Seq<char>)>;

/// The sections of an INI document in order: the name (`None` for the
/// general section) and the properties of each.
pub type IniSections = Seq<(Option<Seq<char>>, IniProperties)>;

/// The sections that an `ini::Ini` holds, in the order in which it keeps them.
pub uninterp spec fn ini_sections(ini: ini::Ini) -> IniSections;

/// The sections that `ini::Ini::load_from_str` reads from a text, or `None`
/// where it refuses the text.
pub uninterp spec fn ini_parse(text: Seq<char>) -> Option<IniSections>;

/// `ini::Ini::load_from_str`: the document that the text holds, or its
/// parse error. The result is named by `ini_parse`.
#[verifier::external_body]
fn ini_load(text: &str) -> (r: Result<ini::Ini, ini::ParseError>)
    ensures
        match r {
            Ok(i) => ini_parse(text@) == Some(ini_sections(i)),
            Err(_) => ini_parse(text@) is None,
        },
{
    ini::Ini::load_from_str(text)
}

/// The position of the first section named `name`, if any.
pub open spec fn first_section(sections: IniSections, name: Option<Seq<char>>) -> Option<int>
    decreases sections.len(),
{
    if sections.len() == 0 {
        None
    } else if sections[0].0 == name {
        Some(0)
    } else {
        match first_section(sections.drop_first(), name) {
            Some(i) => Some(i + 1),
            None => None,
        }
    }
}

/// The value of the first property named `key`, if any.
pub open spec fn first_value(props: IniProperties, key: Seq<char>) -> Option<Seq<char>>
    decreases props.len(),
{
    if props.len() == 0 {
        None
    } else if props[0].0 == key {
        Some(props[0].1)
    } else {
        first_value(props.drop_first(), key)
    }
}

/// What `Ini::get_from` finds: the first value of `key` in the first
/// section named `name`.
pub open spec fn ini_lookup(sections: IniSections, name: Option<Seq<char>>, key: Seq<char>) -> Option<
    Seq<char>,
> {
    match first_section(sections, name) {
        Some(i) => first_value(sections[i].1, key),
        None => None,
    }
}

/// `Ini::get_from`: the first value of `key` in the first section named
/// `section`, as its source shows (`ListOrderedMultimap::get` on the
/// sections, then on the properties).
#[verifier::external_body]
fn ini_get(ini: &ini::Ini, section: &str, key: &str) -> (r: Option<String>)
    ensures
        match r {
            Some(v) => ini_lookup(ini_sections(*ini), Some(section@), key@) == Some(v@),
            None => ini_lookup(ini_sections(*ini), Some(section@), key@) is None,
        },
{
    match ini.get_from(Some(section), key) {
        Some(v) => Some(v.to_string()),
        None => None,
    }
}

/// `Ini::new`: a document with an empty general section only.
#[verifier::external_body]
fn ini_new() -> (r: ini::Ini)
    ensures
        ini_sections(r) == seq![(None::<Seq<char>>, Seq::<(Seq<char>, Seq<char>)>::empty())],
{
    ini::Ini::new()
}

/// The properties after `Properties::insert(key, value)`: the earlier
/// values of `key` are removed and the new pair comes last.
pub open spec fn props_set(props: IniProperties, key: Seq<char>, value: Seq<char>) -> IniProperties {
    props_without(props, key).push((key, value))
}

/// The properties whose key is not `key`, in order.
pub open spec fn props_without(props: IniProperties, key: Seq<char>) -> IniProperties {
    props.filter(|p: (Seq<char>, Seq<char>)| p.0 != key)
}

/// The sections after `Ini::set_to(Some(name), key, value)`: the property
/// is set in the first section named `name`, which is added at the end
/// when there is none.
pub open spec fn sections_set(
    sections: IniSections,
    name: Seq<char>,
    key: Seq<char>,
    value: Seq<char>,
) -> IniSections {
    match first_section(sections, Some(name)) {
        Some(i) => sections.update(i, (Some(name), props_set(sections[i].1, key, value))),
        None => sections.push((Some(name), seq![(key, value)])),
    }
}

/// `Ini::set_to`: sets `key` to `value` in the first section named
/// `section` (created at the end when missing), replacing earlier values
/// of `key`, as its source shows (`SectionEntry::or_insert_with`, then
/// `ListOrderedMultimap::insert`).
#[verifier::external_body]
fn ini_set(ini: &mut ini::Ini, section: &str, key: &str, value: &str)
    ensures
        ini_sections(*final(ini)) == sections_set(ini_sections(*old(ini)), section@, key@, value@),
{
    ini.set_to(Some(section), key.to_string(), value.to_string())
}

pub open spec fn is_ascii_digit(c: char) -> bool {
    '0' <= c <= '9'
}

/// The number written by decimal digits.
pub open spec fn decimal_value(digits: Seq<char>) -> int
    decreases digits.len(),
{
    if digits.len() == 0 {
        0
    } else {
        decimal_value(digits.drop_last()) * 10 + (digits.last() as int - '0' as int)
    }
}

/// The digits of a port value: without one leading `+`.
pub open spec fn port_digits(s: Seq<char>) -> Seq<char> {
    if s.len() > 0 && s[0] == '+' {
        s.drop_first()
    } else {
        s
    }
}

/// What `str::parse::<u16>` gives: an optional `+` followed by at least one
/// ASCII digit, denoting at most 65535.
pub open spec fn spec_parse_port(s: Seq<char>) -> Option<u16> {
    let d = port_digits(s);
    if d.len() > 0 && (forall|k: int| 0 <= k < d.len() ==> is_ascii_digit(#[trigger] d[k]))
        && decimal_value(d) <= 0xffff {
        Some(decimal_value(d) as u16)
    } else {
        None
    }
}

proof fn lemma_decimal_value_nonneg(d: Seq<char>)
    requires
        forall|k: int| 0 <= k < d.len() ==> is_ascii_digit(#[trigger] d[k]),
    ensures
        0 <= decimal_value(d),
    decreases d.len(),
{
    if d.len() > 0 {
        lemma_decimal_value_nonneg(d.drop_last());
        assert(is_ascii_digit(d[d.len() - 1]));
    }
}

/// Digits only add to the value of a decimal number.
proof fn lemma_decimal_value_grows(d: Seq<char>, n: int)
    requires
        0 <= n <= d.len(),
        forall|k: int| 0 <= k < d.len() ==> is_ascii_digit(#[trigger] d[k]),
    ensures
        decimal_value(d.take(n)) <= decimal_value(d),
    decreases d.len() - n,
{
    if n < d.len() {
        lemma_decimal_value_grows(d, n + 1);
        assert(d.take(n + 1).drop_last() =~= d.take(n));
        assert(d.take(n + 1).last() == d[n]);
        assert(is_ascii_digit(d[n]));
        lemma_decimal_value_nonneg(d.take(n));
    } else {
        assert(d.take(n) =~= d);
    }
}

/// Reads a port number the way `str::parse::<u16>` does.
pub fn parse_port(s: &str) -> (r: Option<u16>)
    ensures
        r == spec_parse_port(s@),
{
    let n = s.unicode_len();
    let mut i: usize = 0;
    if n > 0 && s.get_char(0) == '+' {
        i = 1;
    }
    let ghost d = port_digits(s@);
    assert(d =~= s@.subrange(i as int, n as int));
    if i == n {
        return None;
    }
    let start = i;
    let mut value: u32 = 0;
    while i < n
        invariant
            n == s@.len(),
            start <= i <= n,
            d == s@.subrange(start as int, n as int),
            d == port_digits(s@),
            forall|k: int| 0 <= k < i - start ==> is_ascii_digit(#[trigger] d[k]),
            value == decimal_value(d.take(i - start)),
            value <= 0xffff,
        decreases n - i,
    {
        let c = s.get_char(i);
        assert(c == d[i - start]);
        if c < '0' || c > '9' {
            assert(!is_ascii_digit(d[i - start]));
            return None;
        }
        assert(d.take(i - start + 1).drop_last() =~= d.take(i - start));
        let digit: u32 = (c as u32) - ('0' as u32);
        value = value * 10 + digit;
        i = i + 1;
        if value > 0xffff {
            proof {
                if forall|k: int| 0 <= k < d.len() ==> is_ascii_digit(#[trigger] d[k]) {
                    lemma_decimal_value_grows(d, i - start);
                }
            }
            return None;
        }
    }
    assert(d.take(i - start) =~= d);
    Some(value as u16)
}

/// The character of a decimal digit.
pub open spec fn digit_char(d: int) -> char {
    (('0' as int) + d) as char
}

/// The decimal form of a number, without leading zeros, as `Display`
/// writes integers.
pub open spec fn decimal_text(n: nat) -> Seq<char>
    decreases n,
{
    if n < 10 {
        seq![digit_char(n as int)]
    } else {
        decimal_text(n / 10).push(digit_char((n % 10) as int))
    }
}

fn digit_str(d: u16) -> (r: &'static str)
    requires
        d < 10,
    ensures
        r@ == seq![digit_char(d as int)],
{
    proof {
        reveal_strlit("0");
        reveal_strlit("1");
        reveal_strlit("2");
        reveal_strlit("3");
        reveal_strlit("4");
        reveal_strlit("5");
        reveal_strlit("6");
        reveal_strlit("7");
        reveal_strlit("8");
        reveal_strlit("9");
    }
    let r = match d {
        0 => "0",
        1 => "1",
        2 => "2",
        3 => "3",
        4 => "4",
        5 => "5",
        6 => "6",
        7 => "7",
        8 => "8",
        _ => "9",
    };
    assert(r@ =~= seq![digit_char(d as int)]);
    r
}

/// Appends the decimal form of `n` to `s`.
pub fn append_decimal(s: &mut String, n: u16)
    ensures
        final(s)@ == old(s)@ + decimal_text(n as nat),
    decreases n,
{
    if n >= 10 {
        append_decimal(s, n / 10);
    }
    s.append(digit_str(n % 10));
    assert(old(s)@ + decimal_text(n as nat) =~= (if n >= 10 {
        old(s)@ + decimal_text((n / 10) as nat)
    } else {
        old(s)@
    }) + seq![digit_char((n % 10) as int)]);
}

pub(crate) proof fn lemma_decimal_text_digits(n: nat)
    ensures
        decimal_text(n).len() > 0,
        forall|k: int| 0 <= k < decimal_text(n).len() ==> is_ascii_digit(#[trigger] decimal_text(n)[k]),
        decimal_text(n)[0] != '+',
        decimal_value(decimal_text(n)) == n,
    decreases n,
{
    let t = decimal_text(n);
    assert(digit_char((n % 10) as int) as int == '0' as int + n % 10);
    if n < 10 {
        assert(t.drop_last() =~= Seq::<char>::empty());
        assert(decimal_value(Seq::<char>::empty()) == 0);
        assert(t.last() as int == '0' as int + n);
    } else {
        lemma_decimal_text_digits(n / 10);
        assert(t.drop_last() =~= decimal_text(n / 10));
        assert(t.last() as int == '0' as int + n % 10);
        assert((n / 10) * 10 + n % 10 == n);
        assert forall|k: int| 0 <= k < t.len() implies is_ascii_digit(#[trigger] t[k]) by {
            if k < t.len() - 1 {
                assert(t[k] == decimal_text(n / 10)[k]);
            }
        }
    }
}

/// A port written in decimal reads back as the same port.
pub proof fn lemma_port_text_roundtrip(port: u16)
    ensures
        spec_parse_port(decimal_text(port as nat)) == Some(port),
{
    lemma_decimal_text_digits(port as nat);
    assert(port_digits(decimal_text(port as nat)) == decimal_text(port as nat));
}

/// The configuration that the values of `host` and `port` in the
/// `[server]` section describe.
pub open spec fn spec_config_from_values(host: Option<Seq<char>>, port: Option<Seq<char>>) -> Result<
    (Seq<char>, u16),
    ConfigError,
> {
    match host {
        None => Err(ConfigError::MissingHost),
        Some(h) => match port {
            None => Err(ConfigError::MissingPort),
            Some(p) => match spec_parse_port(p) {
                None => Err(ConfigError::InvalidPort),
                Some(v) => Ok((h, v)),
            },
        },
    }
}

/// The characters of an optional string.
pub open spec fn opt_str_view(s: Option<&str>) -> Option<Seq<char>> {
    match s {
        Some(t) => Some(t@),
        None => None,
    }
}

/// The configuration that the `host` and `port` values of the `[server]`
/// section describe, or why they describe none.
pub fn config_from_values(host: Option<&str>, port: Option<&str>) -> (r: Result<Config, ConfigError>)
    ensures
        match r {
            Ok(c) => spec_config_from_values(
                opt_str_view(host),
                opt_str_view(port),
            ) == Ok::<(Seq<char>, u16), ConfigError>(c@),
            Err(e) => spec_config_from_values(
                opt_str_view(host),
                opt_str_view(port),
            ) == Err::<(Seq<char>, u16), ConfigError>(e),
        },
{
    match host {
        None => Err(ConfigError::MissingHost),
        Some(h) => match port {
            None => Err(ConfigError::MissingPort),
            Some(p) => match parse_port(p) {
                None => Err(ConfigError::InvalidPort),
                Some(v) => Ok(Config { host: h.to_owned(), port: v }),
            },
        },
    }
}

/// The host of the configuration written when none can be read.
pub open spec fn default_host() -> Seq<char> {
    "127.0.0.1"@
}

/// The port of the configuration written when none can be read.
pub const DEFAULT_PORT: u16 = 4222;

/// The sections of the configuration file written when none can be read:
/// the empty general section, then `[server]` with `host` and `port`.
pub open spec fn default_sections() -> IniSections {
    seq![
        (None::<Seq<char>>, Seq::<(Seq<char>, Seq<char>)>::empty()),
        (Some("server"@), seq![("host"@, default_host()), ("port"@, "4222"@)]),
    ]
}

/// The configuration used when none can be read.
pub fn default_config() -> (c: Config)
    ensures
        c@ == (default_host(), DEFAULT_PORT),
{
    Config { host: String::from_str("127.0.0.1"), port: DEFAULT_PORT }
}

/// The INI document of the default configuration, to be written to disk.
pub fn default_config_file() -> (f: ini::Ini)
    ensures
        ini_sections(f) == default_sections(),
{
    let mut f = ini_new();
    let ghost s0 = ini_sections(f);
    ini_set(&mut f, "server", "host", "127.0.0.1");
    proof {
        reveal_strlit("server");
        assert(first_section(s0.drop_first(), Some("server"@)) is None);
        assert(first_section(s0, Some("server"@)) is None);
    }
    let ghost s1 = ini_sections(f);
    assert(s1 == s0.push((Some("server"@), seq![("host"@, "127.0.0.1"@)])));
    ini_set(&mut f, "server", "port", "4222");
    proof {
        reveal_strlit("host");
        reveal_strlit("port");
        assert(first_section(s1.drop_first(), Some("server"@)) == Some(0int));
        assert(first_section(s1, Some("server"@)) == Some(1int));
        let props = seq![("host"@, "127.0.0.1"@)];
        assert("host"@ != "port"@) by {
            assert("host"@[0] != "port"@[0]);
        }
        assert(props_without(props, "port"@) =~= props) by {
            reveal(Seq::filter);
            let empty = Seq::<(Seq<char>, Seq<char>)>::empty();
            assert(props.drop_last() =~= empty);
            assert(empty.filter(|p: (Seq<char>, Seq<char>)| p.0 != "port"@) =~= empty);
            assert(empty.push(props.last()) =~= props);
        }
        assert(s1[1] == (Some("server"@), props));
        assert(props_set(props, "port"@, "4222"@) =~= seq![("host"@, default_host()), ("port"@, "4222"@)]);
        assert(ini_sections(f) =~~= default_sections());
    }
    f
}

/// A text without a leading byte order mark, which `Ini::load_from_file` skips.
pub open spec fn strip_bom(text: Seq<char>) -> Seq<char> {
    if text.len() > 0 && text[0] == '\u{feff}' {
        text.drop_first()
    } else {
        text
    }
}

/// Where the configuration in use comes from.
pub enum ConfigSource {
    /// It was read from the configuration file.
    Read(Config),
    /// None could be read: the default configuration, with the document to
    /// write as the new configuration file.
    Created(Config, ini::Ini),
}

/// What `load_config` gives when no configuration could be read.
pub open spec fn is_default_source(r: Result<ConfigSource, ConfigError>) -> bool {
    r matches Ok(ConfigSource::Created(c, f)) && c@ == (default_host(), DEFAULT_PORT)
        && ini_sections(f) == default_sections()
}

/// The configuration chosen from the text of the configuration file, or
/// `None` when the file could not be read: a file that cannot be read or is
/// no INI document gives the default configuration and the document to
/// write; otherwise the `host` and `port` values of the `[server]` section
/// give the configuration, or the reason why they give none.
pub open spec fn spec_load_result(stored: Option<&str>, r: Result<ConfigSource, ConfigError>) -> bool {
    match stored {
        None => is_default_source(r),
        Some(t) => match ini_parse(strip_bom(t@)) {
            None => is_default_source(r),
            Some(secs) => match spec_config_from_values(
                ini_lookup(secs, Some("server"@), "host"@),
                ini_lookup(secs, Some("server"@), "port"@),
            ) {
                Ok(v) => r matches Ok(ConfigSource::Read(c)) && c@ == v,
                Err(e) => r == Err::<ConfigSource, ConfigError>(e),
            },
        },
    }
}

/// The configuration file text gives a configuration: it could not be read,
/// or it is no INI document, or its `[server]` section has a `host` and a
/// `port` from 0 to 65535.
pub open spec fn config_usable(stored: Option<&str>) -> bool {
    match stored {
        None => true,
        Some(t) => match ini_parse(strip_bom(t@)) {
            None => true,
            Some(secs) => spec_config_from_values(
                ini_lookup(secs, Some("server"@), "host"@),
                ini_lookup(secs, Some("server"@), "port"@),
            ) is Ok,
        },
    }
}

/// Chooses the configuration from the text of the configuration file, or
/// `None` when the file could not be read; the text gives a configuration.
pub fn load_config(stored: Option<&str>) -> (r: ConfigSource)
    requires
        config_usable(stored),
    ensures
        spec_load_result(stored, Ok(r)),
{
    match read_config(stored) {
        Ok(source) => source,
        Err(_) => {
            assert(false);
            ConfigSource::Created(default_config(), default_config_file())
        },
    }
}

/// Chooses the configuration from the text of the configuration file, or
/// `None` when the file could not be read; a document whose `[server]`
/// section lacks a usable `host` or `port` is an error.
pub fn try_load_config(stored: Option<&str>) -> (r: Result<ConfigSource, ConfigError>)
    ensures
        spec_load_result(stored, r),
{
    match read_config(stored) {
        Ok(_) => Ok(load_config(stored)),
        Err(e) => Err(e),
    }
}

fn read_config(stored: Option<&str>) -> (r: Result<ConfigSource, ConfigError>)
    ensures
        spec_load_result(stored, r),
{
    let text = match stored {
        None => {
            return Ok(ConfigSource::Created(default_config(), default_config_file()));
        },
        Some(t) => t,
    };
    let n = text.unicode_len();
    let body = if n > 0 && text.get_char(0) == '\u{feff}' {
        text.substring_char(1, n)
    } else {
        text
    };
    assert(body@ =~= strip_bom(text@));
    match ini_load(body) {
        Err(_) => Ok(ConfigSource::Created(default_config(), default_config_file())),
        Ok(doc) => {
            let host = ini_get(&doc, "server", "host");
            let port = ini_get(&doc, "server", "port");
            let host_str: Option<&str> = match &host {
                Some(h) => Some(h.as_str()),
                None => None,
            };
            let port_str: Option<&str> = match &port {
                Some(p) => Some(p.as_str()),
                None => None,
            };
            match config_from_values(host_str, port_str) {
                Ok(c) => Ok(ConfigSource::Read(c)),
                Err(e) => Err(e),
            }
        },
    }
}

} // verus!
