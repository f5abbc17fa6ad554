//! Runtime configuration, read from the values of named settings.
use vstd::prelude::*;
use crate::text::{i64_of, lower_of, lowercase, parse_i64, parse_u16, same_text, u16_of};

verus! {

/// How updates reach the bot.
#[derive(Clone, Copy, Debug, PartialEq, Eq, Structural)]
pub enum BotMode {
    Polling,
    Webhook,
}

/// Long-polling settings.
#[derive(Clone, Debug)]
pub struct PollingConfig {
    pub timeout: i64,
    pub limit: i64,
}

/// Webhook settings.
#[derive(Clone, Debug)]
pub struct WebhookConfig {
    pub url: String,
    pub port: u16,
    pub path: String,
    pub secret: Option<String>,
    pub max_connections: i64,
    pub drop_pending: bool,
}

/// The bot's configuration.
#[derive(Clone, Debug)]
pub struct Config {
    pub bot_token: String,
    pub mode: BotMode,
    pub polling: PollingConfig,
    pub webhook: WebhookConfig,
    pub admin_id: Option<i64>,
    pub api_url: Option<String>,
}

/// The raw values of the settings, each absent when unset.
#[derive(Clone, Debug)]
pub struct Settings {
    pub bot_token: Option<String>,
    pub bot_mode: Option<String>,
    pub polling_timeout: Option<String>,
    pub polling_limit: Option<String>,
    pub webhook_url: Option<String>,
    pub webhook_port: Option<String>,
    pub webhook_path: Option<String>,
    pub webhook_secret: Option<String>,
    pub webhook_max_connections: Option<String>,
    pub webhook_drop_pending: Option<String>,
    pub admin_id: Option<String>,
    pub api_url: Option<String>,
}

/// Why no configuration could be made.
#[derive(Clone, Copy, Debug, PartialEq, Eq, Structural)]
pub enum ConfigError {
    /// The bot token is not set.
    MissingToken,
}

/// An integer setting: its value when set and readable as an `i64`, else
/// `default`.
pub open spec fn int_setting(v: Option<String>, default: i64) -> i64 {
    match v {
        Some(s) => match i64_of(s@) {
            Some(n) => n,
            None => default,
        },
        None => default,
    }
}

/// An integer setting read with `default` as fallback.
fn read_int(v: &Option<String>, default: i64) -> (r: i64)
    ensures
        r == int_setting(*v, default),
{
    match v {
        Some(s) => match parse_i64(s.as_str()) {
            Some(n) => n,
            None => default,
        },
        None => default,
    }
}

/// A text setting with `default` as fallback.
fn read_text(v: &Option<String>, default: &str) -> (r: String)
    ensures
        r@ == match v {
            Some(s) => s@,
            None => default@,
        },
{
    match v {
        Some(s) => s.clone(),
        None => default.to_owned(),
    }
}

impl Config {
    /// Builds the configuration. The bot token is required; the mode is a
    /// webhook when the mode setting reads `webhook` in any case, else
    /// polling; unreadable numbers fall back to their defaults (timeout 30,
    /// limit 100, port 8080, 40 connections); pending updates are dropped
    /// when that setting reads `true` in any case.
    pub fn from_settings(v: &Settings) -> (r: Result<Config, ConfigError>)
        ensures
            v.bot_token is None ==> r == Err::<Config, ConfigError>(ConfigError::MissingToken),
            v.bot_token is Some ==> match r {
                Err(_) => false,
                Ok(c) => {
                    &&& c.bot_token@ == v.bot_token->0@
                    &&& c.mode == if v.bot_mode is Some && lower_of(v.bot_mode->0@)
                        == "webhook"@ {
                        BotMode::Webhook
                    } else {
                        BotMode::Polling
                    }
                    &&& c.polling.timeout == int_setting(v.polling_timeout, 30)
                    &&& c.polling.limit == int_setting(v.polling_limit, 100)
                    &&& c.webhook.url@ == match v.webhook_url {
                        Some(s) => s@,
                        None => "https://example.com"@,
                    }
                    &&& c.webhook.port == match v.webhook_port {
                        Some(s) => match u16_of(s@) {
                            Some(p) => p,
                            None => 8080,
                        },
                        None => 8080,
                    }
                    &&& c.webhook.path@ == match v.webhook_path {
                        Some(s) => s@,
                        None => "/webhook"@,
                    }
                    &&& c.webhook.secret == v.webhook_secret
                    &&& c.webhook.max_connections == int_setting(v.webhook_max_connections, 40)
                    &&& c.webhook.drop_pending == (v.webhook_drop_pending is Some && lower_of(
                        v.webhook_drop_pending->0@,
                    ) == "true"@)
                    &&& c.admin_id == match v.admin_id {
                        Some(s) => i64_of(s@),
                        None => None,
                    }
                    &&& c.api_url == v.api_url
                },
            },
    {
        let bot_token = match &v.bot_token {
            Some(t) => t.clone(),
            None => return Err(ConfigError::MissingToken),
        };
        let mode = match &v.bot_mode {
            Some(m) => {
                let l = lowercase(m.as_str());
                if same_text(l.as_str(), "webhook") {
                    BotMode::Webhook
                } else {
                    BotMode::Polling
                }
            },
            None => BotMode::Polling,
        };
        let polling = PollingConfig {
            timeout: read_int(&v.polling_timeout, 30),
            limit: read_int(&v.polling_limit, 100),
        };
        let port = match &v.webhook_port {
            Some(s) => match parse_u16(s.as_str()) {
                Some(p) => p,
                None => 8080,
            },
            None => 8080,
        };
        let drop_pending = match &v.webhook_drop_pending {
            Some(s) => {
                let l = lowercase(s.as_str());
                same_text(l.as_str(), "true")
            },
            None => false,
        };
        let webhook = WebhookConfig {
            url: read_text(&v.webhook_url, "https://example.com"),
            port,
            path: read_text(&v.webhook_path, "/webhook"),
            secret: v.webhook_secret.clone(),
            max_connections: read_int(&v.webhook_max_connections, 40),
            drop_pending,
        };
        let admin_id = match &v.admin_id {
            Some(s) => parse_i64(s.as_str()),
            None => None,
        };
        Ok(Config {
            bot_token,
            mode,
            polling,
            webhook,
            admin_id,
            api_url: v.api_url.clone(),
        })
    }
}

} // verus!
