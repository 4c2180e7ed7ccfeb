//! The proxy's configuration: a value that is made once from the settings
//! that were read at startup and never changes after.

use crate::text::{character_count_fits, text_view};
use vstd::prelude::*;

verus! {

/// Where and how the upstream model is reached.
#[derive(Debug)]
pub struct LlmConfig {
    pub endpoint: String,
    pub api_key: Option<String>,
    pub passthrough_model_name: String,
}

/// The configuration of the proxy.
#[derive(Debug)]
pub struct AppConfig {
    pub exposed_model_name: String,
    pub host: String,
    pub port: u16,
    pub llm_config: LlmConfig,
}

/// The settings that a configuration is made of.
#[derive(Clone, Copy, Debug, PartialEq, Eq, Structural)]
pub enum Setting {
    ExposedModelName,
    Host,
    Port,
    Endpoint,
    ApiKey,
    PassthroughModelName,
}

/// Why no configuration could be made.
#[derive(Clone, Copy, Debug, PartialEq, Eq, Structural)]
pub enum ConfigError {
    /// A setting that must be there is not.
    Missing(Setting),
    /// The port is not a decimal number from 0 to 65535.
    InvalidPort,
}

/// The value of an `LlmConfig`.
pub struct LlmConfigView {
    pub endpoint: Seq<char>,
    pub api_key: Option<Seq<char>>,
    pub passthrough_model_name: Seq<char>,
}

/// The value of an `AppConfig`.
pub struct AppConfigView {
    pub exposed_model_name: Seq<char>,
    pub host: Seq<char>,
    pub port: u16,
    pub llm_config: LlmConfigView,
}

impl View for LlmConfig {
    type V = LlmConfigView;

    open spec fn view(&self) -> LlmConfigView {
        LlmConfigView {
            endpoint: self.endpoint@,
            api_key: text_view(self.api_key),
            passthrough_model_name: self.passthrough_model_name@,
        }
    }
}

impl View for AppConfig {
    type V = AppConfigView;

    open spec fn view(&self) -> AppConfigView {
        AppConfigView {
            exposed_model_name: self.exposed_model_name@,
            host: self.host@,
            port: self.port,
            llm_config: self.llm_config@,
        }
    }
}

/// The key under which a setting is looked up.
pub open spec fn key_of(setting: Setting) -> Seq<char> {
    match setting {
        Setting::ExposedModelName => "exposed_model_name"@,
        Setting::Host => "host"@,
        Setting::Port => "port"@,
        Setting::Endpoint => "llm_config.endpoint"@,
        Setting::ApiKey => "llm_config.api_key"@,
        Setting::PassthroughModelName => "llm_config.passthrough_model_name"@,
    }
}

impl Setting {
    /// The key under which the setting is looked up.
    pub fn key(&self) -> (k: &'static str)
        ensures
            k@ == key_of(*self),
    {
        match self {
            Setting::ExposedModelName => "exposed_model_name",
            Setting::Host => "host",
            Setting::Port => "port",
            Setting::Endpoint => "llm_config.endpoint",
            Setting::ApiKey => "llm_config.api_key",
            Setting::PassthroughModelName => "llm_config.passthrough_model_name",
        }
    }
}

/// Settings as pairs of key and value.
pub open spec fn settings_view(settings: Seq<(String, String)>) -> Seq<(Seq<char>, Seq<char>)> {
    Seq::new(settings.len(), |i: int| (settings[i].0@, settings[i].1@))
}

/// The value that `settings` gives to `key`: that of the last pair with the
/// key, so that a later source overrides an earlier one.
pub open spec fn value_of(settings: Seq<(Seq<char>, Seq<char>)>, key: Seq<char>) -> Option<
    Seq<char>,
>
    decreases settings.len(),
{
    if settings.len() == 0 {
        None
    } else if settings.last().0 == key {
        Some(settings.last().1)
    } else {
        value_of(settings.drop_last(), key)
    }
}

/// Looks a key up in the settings; the last pair with the key counts.
pub fn lookup(settings: &Vec<(String, String)>, key: &str) -> (r: Option<String>)
    ensures
        text_view(r) == value_of(settings_view(settings@), key@),
{
    let wanted = key.to_owned();
    let mut i: usize = settings.len();
    assert(settings_view(settings@).take(i as int) =~= settings_view(settings@));
    while i > 0
        invariant
            i <= settings.len(),
            wanted@ == key@,
            value_of(settings_view(settings@), key@) == value_of(
                settings_view(settings@).take(i as int),
                key@,
            ),
        decreases i,
    {
        let ghost all = settings_view(settings@);
        assert(all.take(i as int).last() == all[i - 1]);
        assert(all.take(i as int).drop_last() =~= all.take(i - 1));
        if settings[i - 1].0 == wanted {
            return Some(settings[i - 1].1.clone());
        }
        i -= 1;
    }
    assert(settings_view(settings@).take(0).len() == 0);
    None
}

/// A decimal digit.
pub open spec fn is_digit(c: char) -> bool {
    '0' <= c <= '9'
}

/// The number that a run of decimal digits writes.
pub open spec fn decimal_value(digits: Seq<char>) -> int
    decreases digits.len(),
{
    if digits.len() == 0 {
        0
    } else {
        decimal_value(digits.drop_last()) * 10 + (digits.last() as int - '0' as int)
    }
}

/// The port that `text` writes: one or more decimal digits, nothing else,
/// with a value of at most 65535.
pub open spec fn port_of(text: Seq<char>) -> Option<u16> {
    if text.len() > 0 && (forall|i: int| 0 <= i < text.len() ==> is_digit(#[trigger] text[i]))
        && decimal_value(text) <= 65535 {
        Some(decimal_value(text) as u16)
    } else {
        None
    }
}

/// A run of digits writes at least what any of its prefixes writes.
proof fn lemma_decimal_value_grows(digits: Seq<char>, k: int)
    requires
        0 <= k <= digits.len(),
        forall|i: int| 0 <= i < digits.len() ==> is_digit(#[trigger] digits[i]),
    ensures
        0 <= decimal_value(digits.take(k)) <= decimal_value(digits),
    decreases digits.len() - k,
{
    if k == digits.len() {
        assert(digits.take(k) =~= digits);
        lemma_decimal_value_nonnegative(digits);
    } else {
        let next = digits.take(k + 1);
        assert(next.drop_last() =~= digits.take(k));
        assert(is_digit(digits[k]));
        assert(next.last() == digits[k]);
        lemma_decimal_value_nonnegative(digits.take(k));
        lemma_decimal_value_grows(digits, k + 1);
    }
}

/// A run of digits writes no negative number.
proof fn lemma_decimal_value_nonnegative(digits: Seq<char>)
    requires
        forall|i: int| 0 <= i < digits.len() ==> is_digit(#[trigger] digits[i]),
    ensures
        0 <= decimal_value(digits),
    decreases digits.len(),
{
    if digits.len() > 0 {
        assert(is_digit(digits[digits.len() - 1]));
        lemma_decimal_value_nonnegative(digits.drop_last());
    }
}

/// Reads a port number.
pub fn parse_port(text: &str) -> (r: Option<u16>)
    ensures
        r == port_of(text@),
{
    let mut value: u32 = 0;
    let mut seen: usize = 0;
    character_count_fits(text);
    let chars = text.chars();
    for c in it: chars
        invariant
            it.seq() == text@,
            text@.len() <= usize::MAX,
            seen == it.index(),
            forall|i: int| 0 <= i < seen ==> is_digit(#[trigger] text@[i]),
            value == decimal_value(text@.take(seen as int)),
            value <= 65535,
    {
        assert(c == text@[seen as int]);
        if !('0' <= c && c <= '9') {
            return None;
        }
        let digit: u32 = c as u32 - '0' as u32;
        proof {
            let next = text@.take(seen + 1);
            assert(next.drop_last() =~= text@.take(seen as int));
            assert(next.last() == c);
        }
        value = value * 10 + digit;
        seen += 1;
        if value > 65535 {
            proof {
                if forall|i: int| 0 <= i < text@.len() ==> is_digit(#[trigger] text@[i]) {
                    lemma_decimal_value_grows(text@, seen as int);
                }
            }
            return None;
        }
    }
    assert(text@.take(seen as int) =~= text@);
    if seen == 0 {
        None
    } else {
        Some(value as u16)
    }
}

/// The configuration that `settings` describe, or the first thing that is
/// wrong with them.
pub open spec fn config_of(settings: Seq<(Seq<char>, Seq<char>)>) -> Result<
    AppConfigView,
    ConfigError,
> {
    let exposed = value_of(settings, key_of(Setting::ExposedModelName));
    let host = value_of(settings, key_of(Setting::Host));
    let port = value_of(settings, key_of(Setting::Port));
    let endpoint = value_of(settings, key_of(Setting::Endpoint));
    let passthrough = value_of(settings, key_of(Setting::PassthroughModelName));
    if exposed is None {
        Err(ConfigError::Missing(Setting::ExposedModelName))
    } else if host is None {
        Err(ConfigError::Missing(Setting::Host))
    } else if port is None {
        Err(ConfigError::Missing(Setting::Port))
    } else if port_of(port->0) is None {
        Err(ConfigError::InvalidPort)
    } else if endpoint is None {
        Err(ConfigError::Missing(Setting::Endpoint))
    } else if passthrough is None {
        Err(ConfigError::Missing(Setting::PassthroughModelName))
    } else {
        Ok(
            AppConfigView {
                exposed_model_name: exposed->0,
                host: host->0,
                port: port_of(port->0)->0,
                llm_config: LlmConfigView {
                    endpoint: endpoint->0,
                    api_key: value_of(settings, key_of(Setting::ApiKey)),
                    passthrough_model_name: passthrough->0,
                },
            },
        )
    }
}

/// The outcome of making a configuration, as the contracts speak of it.
pub open spec fn outcome_view(r: Result<AppConfig, ConfigError>) -> Result<
    AppConfigView,
    ConfigError,
> {
    match r {
        Ok(config) => Ok(config@),
        Err(e) => Err(e),
    }
}

impl AppConfig {
    /// Makes the configuration from the settings that were read from the
    /// configuration file and from the environment, as pairs of key and
    /// value with the file's pairs first, so that the environment overrides
    /// the file. The exposed model name, host, port, upstream endpoint and
    /// upstream model name must be there; the API key may be missing.
    pub fn from_env(settings: &Vec<(String, String)>) -> (r: Result<AppConfig, ConfigError>)
        ensures
            outcome_view(r) == config_of(settings_view(settings@)),
    {
        let exposed_model_name = match lookup(settings, Setting::ExposedModelName.key()) {
            Some(v) => v,
            None => return Err(ConfigError::Missing(Setting::ExposedModelName)),
        };
        let host = match lookup(settings, Setting::Host.key()) {
            Some(v) => v,
            None => return Err(ConfigError::Missing(Setting::Host)),
        };
        let port = match lookup(settings, Setting::Port.key()) {
            Some(v) => match parse_port(v.as_str()) {
                Some(p) => p,
                None => return Err(ConfigError::InvalidPort),
            },
            None => return Err(ConfigError::Missing(Setting::Port)),
        };
        let endpoint = match lookup(settings, Setting::Endpoint.key()) {
            Some(v) => v,
            None => return Err(ConfigError::Missing(Setting::Endpoint)),
        };
        let passthrough_model_name = match lookup(settings, Setting::PassthroughModelName.key()) {
            Some(v) => v,
            None => return Err(ConfigError::Missing(Setting::PassthroughModelName)),
        };
        let api_key = lookup(settings, Setting::ApiKey.key());
        Ok(
            AppConfig {
                exposed_model_name,
                host,
                port,
                llm_config: LlmConfig { endpoint, api_key, passthrough_model_name },
            },
        )
    }
}

} // verus!
