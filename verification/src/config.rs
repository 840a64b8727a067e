//! Engine configuration and its validation. Reading the environment or a
//! configuration file happens outside the library; the decisions over the
//! values read happen here.

use vstd::prelude::*;
use crate::errors::ConfigError;
use crate::gates::{DEFAULT_MAX_GLOBAL_CONCURRENCY, DEFAULT_MAX_PER_BOT_CONCURRENCY};
use crate::models::BotConfig;
use crate::strutil::{spec_is_blank, str_is_blank};
use vstd::string::StringExecFns;

verus! {

/// The engine configuration.
#[derive(Debug)]
pub struct Config {
    /// Metadata-store connection string.
    pub mongo_uri: String,
    /// Base URL of the blob tier.
    pub telegram_api_url: String,
    /// Destination chat; all uploads go there.
    pub telegram_chat_id: String,
    /// Bots to auto-register.
    pub bots: Vec<BotConfig>,
    /// Capacity of the global admission gate.
    pub max_global_concurrency: u64,
    /// Capacity of each per-bot admission gate.
    pub max_per_bot_concurrency: u64,
}

/// The fallback blob-tier base URL.
pub open spec fn spec_default_api_url() -> Seq<char> {
    "http://localhost:8081"@
}

/// Assemble and validate a configuration from the values the environment
/// offered: the metadata-store URI and the chat id are required and must not
/// be blank; a missing blob-tier URL falls back to the default; an empty bot
/// list is refused; the concurrency bounds take their defaults.
pub fn validate_config(
    mongo_uri: Option<String>,
    telegram_api_url: Option<String>,
    telegram_chat_id: Option<String>,
    bots: Vec<BotConfig>,
) -> (r: Result<Config, ConfigError>)
    ensures
        (mongo_uri is None || spec_is_blank(mongo_uri.unwrap()@)) ==> (r matches Err(e)
            && e matches ConfigError::MissingEnvVar(v) && v@ == "MONGO_URI"@),
        (mongo_uri matches Some(u) && !spec_is_blank(u@)) && (telegram_chat_id is None
            || spec_is_blank(telegram_chat_id.unwrap()@)) ==> (r matches Err(e) && e matches
            ConfigError::MissingEnvVar(v) && v@ == "TELEGRAM_CHAT_ID"@),
        (mongo_uri matches Some(u) && !spec_is_blank(u@)) && (telegram_chat_id matches Some(c)
            && !spec_is_blank(c@)) && bots@.len() == 0 ==> (r matches Err(e) && e is
        NoValidBotConfig),
        (mongo_uri matches Some(u) && !spec_is_blank(u@)) && (telegram_chat_id matches Some(c)
            && !spec_is_blank(c@)) && bots@.len() > 0 ==> (r matches Ok(cfg)
            && cfg.mongo_uri == mongo_uri.unwrap() && cfg.telegram_chat_id
            == telegram_chat_id.unwrap() && (telegram_api_url matches Some(a)
            ==> cfg.telegram_api_url == a) && (telegram_api_url is None ==> cfg.telegram_api_url@
            == spec_default_api_url()) && cfg.bots@ == bots@ && cfg.max_global_concurrency
            == DEFAULT_MAX_GLOBAL_CONCURRENCY && cfg.max_per_bot_concurrency
            == DEFAULT_MAX_PER_BOT_CONCURRENCY),
{
    let uri = match mongo_uri {
        None => {
            return Err(ConfigError::MissingEnvVar(String::from_str("MONGO_URI")));
        },
        Some(u) => {
            if str_is_blank(u.as_str()) {
                return Err(ConfigError::MissingEnvVar(String::from_str("MONGO_URI")));
            }
            u
        },
    };
    let chat_id = match telegram_chat_id {
        None => {
            return Err(ConfigError::MissingEnvVar(String::from_str("TELEGRAM_CHAT_ID")));
        },
        Some(c) => {
            if str_is_blank(c.as_str()) {
                return Err(ConfigError::MissingEnvVar(String::from_str("TELEGRAM_CHAT_ID")));
            }
            c
        },
    };
    if bots.len() == 0 {
        return Err(ConfigError::NoValidBotConfig);
    }
    let api_url = match telegram_api_url {
        Some(a) => a,
        None => String::from_str("http://localhost:8081"),
    };
    Ok(
        Config {
            mongo_uri: uri,
            telegram_api_url: api_url,
            telegram_chat_id: chat_id,
            bots,
            max_global_concurrency: DEFAULT_MAX_GLOBAL_CONCURRENCY,
            max_per_bot_concurrency: DEFAULT_MAX_PER_BOT_CONCURRENCY,
        },
    )
}

} // verus!
