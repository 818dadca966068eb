use vstd::prelude::*;

use crate::models::opt_str;
use crate::numbers::{parse_bounded, parse_unsigned};
use crate::text::concat2;

verus! {

/// Settings of the service.
pub struct Config {
    pub trello_api_key: String,
    pub trello_token: String,
    pub trello_board_id: String,
    pub ai_base_url: String,
    pub ai_api_key: String,
    pub ai_model: String,
    pub redis_url: String,
    pub cache_ttl_seconds: u64,
    pub webhook_url: Option<String>,
    pub server_host: String,
    pub server_port: u16,
}

/// The environment variables the settings come from (`None` when unset).
pub struct EnvVars {
    pub api_trello_key: Option<String>,
    pub trello_token: Option<String>,
    pub trello_board_id: Option<String>,
    pub ai_base_url: Option<String>,
    pub ai_api_key: Option<String>,
    pub ai_model: Option<String>,
    pub redis_url: Option<String>,
    pub cache_ttl_seconds: Option<String>,
    pub webhook_url: Option<String>,
    pub server_host: Option<String>,
    pub server_port: Option<String>,
}

/// A required variable is unset.
pub enum ConfigError {
    /// The name of the missing variable.
    Missing(String),
}

impl ConfigError {
    /// The error message.
    pub fn message(&self) -> (r: String)
        ensures
            r@ == match self {
                ConfigError::Missing(n) => n@ + " is required"@,
            },
    {
        match self {
            ConfigError::Missing(n) => concat2(n.as_str(), " is required"),
        }
    }
}

/// A variable's value, or a default.
pub open spec fn or_default(v: Option<String>, d: Seq<char>) -> Seq<char> {
    match v {
        Some(s) => s@,
        None => d,
    }
}

/// A number read from a variable (default text `dtext`), or `dval` when it does not parse.
pub open spec fn number_or(v: Option<String>, dtext: Seq<char>, max: nat, dval: nat) -> nat {
    match parse_unsigned(or_default(v, dtext), max) {
        Some(n) => n,
        None => dval,
    }
}

/// The name of the first required variable that is unset.
pub open spec fn first_missing(v: EnvVars) -> Option<Seq<char>> {
    if v.api_trello_key is None {
        Some("API_TRELLO_KEY"@)
    } else if v.trello_token is None {
        Some("TRELLO_TOKEN"@)
    } else if v.trello_board_id is None {
        Some("TRELLO_BOARD_ID"@)
    } else if v.ai_base_url is None {
        Some("AI_BASE_URL"@)
    } else if v.ai_api_key is None {
        Some("AI_API_KEY"@)
    } else {
        None
    }
}

/// The settings read from the variables, when every required one is set:
/// required values as given, defaults for the others, numbers that do not
/// parse replaced by their default, and an empty webhook URL taken as unset.
pub open spec fn config_ok(c: Config, v: EnvVars) -> bool {
    &&& c.trello_api_key@ == or_default(v.api_trello_key, Seq::empty())
    &&& c.trello_token@ == or_default(v.trello_token, Seq::empty())
    &&& c.trello_board_id@ == or_default(v.trello_board_id, Seq::empty())
    &&& c.ai_base_url@ == or_default(v.ai_base_url, Seq::empty())
    &&& c.ai_api_key@ == or_default(v.ai_api_key, Seq::empty())
    &&& c.ai_model@ == or_default(v.ai_model, "gemini-2.5-flash-lite"@)
    &&& c.redis_url@ == or_default(v.redis_url, "redis://127.0.0.1:6379"@)
    &&& c.cache_ttl_seconds == number_or(v.cache_ttl_seconds, "300"@, u64::MAX as nat, 300)
    &&& opt_str(c.webhook_url) == match v.webhook_url {
        Some(u) => if u@.len() > 0 { Some(u@) } else { None },
        None => None,
    }
    &&& c.server_host@ == or_default(v.server_host, "0.0.0.0"@)
    &&& c.server_port == number_or(v.server_port, "3000"@, u16::MAX as nat, 3000)
}

/// A variable's value, or a default.
fn value_or(v: &Option<String>, d: &str) -> (r: String)
    ensures
        r@ == or_default(*v, d@),
{
    match v {
        Some(s) => s.clone(),
        None => String::from_str(d),
    }
}

impl Config {
    /// Reads the settings from the environment variables: an error names the
    /// first required variable that is unset; see `config_ok`.
    pub fn from_vars(v: &EnvVars) -> (r: Result<Config, ConfigError>)
        ensures
            match first_missing(*v) {
                Some(name) => r matches Err(ConfigError::Missing(n)) && n@ == name,
                None => r matches Ok(c) && config_ok(c, *v),
            },
    {
        let key = match &v.api_trello_key {
            Some(s) => s.clone(),
            None => return Err(ConfigError::Missing(String::from_str("API_TRELLO_KEY"))),
        };
        let token = match &v.trello_token {
            Some(s) => s.clone(),
            None => return Err(ConfigError::Missing(String::from_str("TRELLO_TOKEN"))),
        };
        let board = match &v.trello_board_id {
            Some(s) => s.clone(),
            None => return Err(ConfigError::Missing(String::from_str("TRELLO_BOARD_ID"))),
        };
        let base = match &v.ai_base_url {
            Some(s) => s.clone(),
            None => return Err(ConfigError::Missing(String::from_str("AI_BASE_URL"))),
        };
        let ai_key = match &v.ai_api_key {
            Some(s) => s.clone(),
            None => return Err(ConfigError::Missing(String::from_str("AI_API_KEY"))),
        };
        let ttl_text = value_or(&v.cache_ttl_seconds, "300");
        let ttl: u64 = match parse_bounded(ttl_text.as_str(), 0xffff_ffff_ffff_ffff) {
            Some(n) => n,
            None => 300,
        };
        let port_text = value_or(&v.server_port, "3000");
        let port: u16 = match parse_bounded(port_text.as_str(), 0xffff) {
            Some(n) => n as u16,
            None => 3000,
        };
        let webhook_url = match &v.webhook_url {
            Some(u) => if u.as_str().is_empty() { None } else { Some(u.clone()) },
            None => None,
        };
        Ok(Config {
            trello_api_key: key,
            trello_token: token,
            trello_board_id: board,
            ai_base_url: base,
            ai_api_key: ai_key,
            ai_model: value_or(&v.ai_model, "gemini-2.5-flash-lite"),
            redis_url: value_or(&v.redis_url, "redis://127.0.0.1:6379"),
            cache_ttl_seconds: ttl,
            webhook_url,
            server_host: value_or(&v.server_host, "0.0.0.0"),
            server_port: port,
        })
    }
}

} // verus!
