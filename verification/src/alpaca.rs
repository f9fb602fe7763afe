//! Alpaca account configuration.

use vstd::prelude::*;

use crate::text::str_equal;

verus! {

/// Paper trading (the default) or live trading with real money.
#[derive(Debug, Clone, Copy, PartialEq, Eq, Structural)]
pub enum AlpacaMode {
    Paper,
    Live,
}

/// The mode that an `ALPACA_MODE` setting selects: only `"live"` selects live
/// trading; a missing setting or any other value selects paper trading.
pub open spec fn mode_of_setting(setting: Option<Seq<char>>) -> AlpacaMode {
    match setting {
        Some(s) => if s == "live"@ {
            AlpacaMode::Live
        } else {
            AlpacaMode::Paper
        },
        None => AlpacaMode::Paper,
    }
}

impl AlpacaMode {
    /// Reads the `ALPACA_MODE` setting.
    pub fn from_setting(setting: Option<&str>) -> (r: AlpacaMode)
        ensures
            r == mode_of_setting(
                match setting {
                    Some(s) => Some(s@),
                    None => None,
                },
            ),
    {
        match setting {
            Some(s) => if str_equal(s, "live") {
                AlpacaMode::Live
            } else {
                AlpacaMode::Paper
            },
            None => AlpacaMode::Paper,
        }
    }

    /// The lower-case name of the mode, as shown by `/health` and `/account`.
    pub fn to_string(&self) -> (r: String)
        ensures
            r@ == (match *self {
                AlpacaMode::Paper => "paper"@,
                AlpacaMode::Live => "live"@,
            }),
    {
        match self {
            AlpacaMode::Paper => String::from_str("paper"),
            AlpacaMode::Live => String::from_str("live"),
        }
    }
}

/// API credentials and trading mode.
#[derive(Debug, Clone)]
pub struct AlpacaConfig {
    pub api_key: String,
    pub secret_key: String,
    pub mode: AlpacaMode,
}

/// Why the Alpaca settings cannot be used.
#[derive(Debug, Clone, Copy, PartialEq, Eq, Structural)]
pub enum ConfigError {
    /// `ALPACA_API_KEY` is not set.
    MissingApiKey,
    /// `ALPACA_SECRET_KEY` is not set.
    MissingSecretKey,
    /// One of the two keys is set to the empty string.
    EmptyKey,
}

impl AlpacaConfig {
    /// Builds the configuration from the three settings, checked in the order in
    /// which the service reads them: the API key must be set, then the secret key,
    /// then neither may be empty. The mode follows [`mode_of_setting`].
    pub fn from_settings(
        api_key: Option<String>,
        secret_key: Option<String>,
        mode: Option<&str>,
    ) -> (r: Result<AlpacaConfig, ConfigError>)
        ensures
            api_key is None ==> r == Err::<AlpacaConfig, ConfigError>(ConfigError::MissingApiKey),
            api_key is Some && secret_key is None ==> r == Err::<AlpacaConfig, ConfigError>(
                ConfigError::MissingSecretKey,
            ),
            api_key is Some && secret_key is Some && (api_key->0@.len() == 0
                || secret_key->0@.len() == 0) ==> r == Err::<AlpacaConfig, ConfigError>(
                ConfigError::EmptyKey,
            ),
            r is Ok <==> (api_key is Some && secret_key is Some && api_key->0@.len() != 0
                && secret_key->0@.len() != 0),
            r is Ok ==> {
                &&& r->Ok_0.api_key@ == api_key->0@
                &&& r->Ok_0.secret_key@ == secret_key->0@
                &&& r->Ok_0.mode == mode_of_setting(
                    match mode {
                        Some(s) => Some(s@),
                        None => None,
                    },
                )
            },
    {
        let api_key = match api_key {
            Some(k) => k,
            None => return Err(ConfigError::MissingApiKey),
        };
        let secret_key = match secret_key {
            Some(k) => k,
            None => return Err(ConfigError::MissingSecretKey),
        };
        if api_key.as_str().is_empty() || secret_key.as_str().is_empty() {
            return Err(ConfigError::EmptyKey);
        }
        Ok(AlpacaConfig { api_key, secret_key, mode: AlpacaMode::from_setting(mode) })
    }

    /// The REST endpoint of the configured mode.
    pub fn base_url(&self) -> (r: &'static str)
        ensures
            r@ == (match self.mode {
                AlpacaMode::Paper => "https://paper-api.alpaca.markets"@,
                AlpacaMode::Live => "https://api.alpaca.markets"@,
            }),
    {
        match self.mode {
            AlpacaMode::Paper => "https://paper-api.alpaca.markets",
            AlpacaMode::Live => "https://api.alpaca.markets",
        }
    }
}

} // verus!
