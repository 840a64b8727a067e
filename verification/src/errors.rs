//! Error taxonomy of the engine.
//!
//! Transient blob-tier failures (rate limiting, server errors, network
//! failures) are retryable; everything else is terminal. The retry policy in
//! `retry` absorbs the retryable class; all other errors short-circuit their
//! pipeline.

use vstd::prelude::*;
use vstd::string::StringExecFns;
use crate::strutil::{spec_dec, u64_to_dec};

verus! {

/// Failure while assembling the configuration.
#[derive(Debug, Clone)]
pub enum ConfigError {
    MissingBotsJson,
    InvalidBotsJson(String),
    MissingEnvVar(String),
    NoValidBotConfig,
    General(String),
}

/// What `ConfigError::message` renders.
pub open spec fn spec_config_message(e: &ConfigError) -> Seq<char> {
    match e {
        ConfigError::MissingBotsJson => "BOTS_JSON environment variable not set"@,
        ConfigError::InvalidBotsJson(s) => "Invalid BOTS_JSON: "@ + s@,
        ConfigError::MissingEnvVar(s) => s@ + " must be set"@,
        ConfigError::NoValidBotConfig => "Neither BOTS_JSON nor BOT_ID/BOT_TOKEN provided"@,
        ConfigError::General(s) => "Configuration error: "@ + s@,
    }
}

impl ConfigError {
    /// Human-readable description of the failure.
    pub fn message(&self) -> (r: String)
        ensures
            r@ == spec_config_message(self),
    {
        match self {
            ConfigError::MissingBotsJson => String::from_str(
                "BOTS_JSON environment variable not set",
            ),
            ConfigError::InvalidBotsJson(s) => String::from_str("Invalid BOTS_JSON: ").concat(
                s.as_str(),
            ),
            ConfigError::MissingEnvVar(s) => s.clone().concat(" must be set"),
            ConfigError::NoValidBotConfig => String::from_str(
                "Neither BOTS_JSON nor BOT_ID/BOT_TOKEN provided",
            ),
            ConfigError::General(s) => String::from_str("Configuration error: ").concat(s.as_str()),
        }
    }
}

/// Engine error. The retryable kinds are exactly `TelegramError` (network
/// failure), `RateLimited` (HTTP 429) and `ServerError` (HTTP 5xx); every
/// other kind is terminal.
#[derive(Debug, Clone)]
pub enum TgCloudError {
    /// Metadata-store failure.
    MongoError(String),
    /// Low-level network or protocol failure talking to the blob tier.
    TelegramError(String),
    /// Local file I/O failure.
    IoError(String),
    /// Bot roster failure: a referenced bot is unknown, or no bot is active.
    BotManagerError(String),
    /// No metadata row for the given name.
    FileNotFound(String),
    /// Configuration failure.
    ConfigError(ConfigError),
    /// Composite upload failure surfaced to callers.
    UploadFailed(String),
    /// Composite download failure surfaced to callers.
    DownloadFailed(String),
    /// Composite delete failure surfaced to callers.
    DeleteFailed(String),
    /// Digest mismatch after reassembly; the output has been discarded.
    IntegrityFailed { expected: String, actual: String },
    /// HTTP 429 from the blob tier.
    RateLimited(String),
    /// HTTP 5xx from the blob tier.
    ServerError(u16),
    /// Retry budget spent on a retryable failure.
    RetryExhausted { attempts: u32, last_error: String },
    /// Gate shut or invariant violation: programmer error.
    Internal(String),
    /// Anything that does not fit the kinds above.
    Unknown(String),
}

/// The retryable class: network failures, HTTP 429 and HTTP 5xx.
pub open spec fn spec_is_retryable(e: &TgCloudError) -> bool {
    match e {
        TgCloudError::TelegramError(_) => true,
        TgCloudError::RateLimited(_) => true,
        TgCloudError::ServerError(_) => true,
        _ => false,
    }
}

/// What `TgCloudError::message` renders.
pub open spec fn spec_message(e: &TgCloudError) -> Seq<char> {
    match e {
        TgCloudError::MongoError(s) => "MongoDB error: "@ + s@,
        TgCloudError::TelegramError(s) => "Telegram API error: "@ + s@,
        TgCloudError::IoError(s) => "IO error: "@ + s@,
        TgCloudError::BotManagerError(s) => "Bot manager error: "@ + s@,
        TgCloudError::FileNotFound(s) => "File not found: "@ + s@,
        TgCloudError::ConfigError(c) => "Configuration error: "@ + spec_config_message(c),
        TgCloudError::UploadFailed(s) => "Upload failed: "@ + s@,
        TgCloudError::DownloadFailed(s) => "Download failed: "@ + s@,
        TgCloudError::DeleteFailed(s) => "Delete failed: "@ + s@,
        TgCloudError::IntegrityFailed { expected, actual } => "SHA256 mismatch: expected "@
            + expected@ + ", got "@ + actual@,
        TgCloudError::RateLimited(s) => "Rate limited: "@ + s@,
        TgCloudError::ServerError(status) => "Server error (HTTP "@ + spec_dec(*status as int)
            + ")"@,
        TgCloudError::RetryExhausted { attempts, last_error } => "Retry exhausted after "@
            + spec_dec(*attempts as int) + " attempts: "@ + last_error@,
        TgCloudError::Internal(s) => "Internal error: "@ + s@,
        TgCloudError::Unknown(s) => "Unknown error: "@ + s@,
    }
}

impl TgCloudError {
    /// Human-readable description of the failure.
    pub fn message(&self) -> (r: String)
        ensures
            r@ == spec_message(self),
    {
        match self {
            TgCloudError::MongoError(s) => String::from_str("MongoDB error: ").concat(s.as_str()),
            TgCloudError::TelegramError(s) => String::from_str("Telegram API error: ").concat(
                s.as_str(),
            ),
            TgCloudError::IoError(s) => String::from_str("IO error: ").concat(s.as_str()),
            TgCloudError::BotManagerError(s) => String::from_str("Bot manager error: ").concat(
                s.as_str(),
            ),
            TgCloudError::FileNotFound(s) => String::from_str("File not found: ").concat(
                s.as_str(),
            ),
            TgCloudError::ConfigError(c) => String::from_str("Configuration error: ").concat(
                c.message().as_str(),
            ),
            TgCloudError::UploadFailed(s) => String::from_str("Upload failed: ").concat(s.as_str()),
            TgCloudError::DownloadFailed(s) => String::from_str("Download failed: ").concat(
                s.as_str(),
            ),
            TgCloudError::DeleteFailed(s) => String::from_str("Delete failed: ").concat(s.as_str()),
            TgCloudError::IntegrityFailed { expected, actual } => String::from_str(
                "SHA256 mismatch: expected ",
            ).concat(expected.as_str()).concat(", got ").concat(actual.as_str()),
            TgCloudError::RateLimited(s) => String::from_str("Rate limited: ").concat(s.as_str()),
            TgCloudError::ServerError(status) => String::from_str("Server error (HTTP ").concat(
                u64_to_dec(*status as u64).as_str(),
            ).concat(")"),
            TgCloudError::RetryExhausted { attempts, last_error } => String::from_str(
                "Retry exhausted after ",
            ).concat(u64_to_dec(*attempts as u64).as_str()).concat(" attempts: ").concat(
                last_error.as_str(),
            ),
            TgCloudError::Internal(s) => String::from_str("Internal error: ").concat(s.as_str()),
            TgCloudError::Unknown(s) => String::from_str("Unknown error: ").concat(s.as_str()),
        }
    }
}

/// Result alias used across the engine.
pub type TgResult<T> = Result<T, TgCloudError>;

} // verus!
