//! Settings read from `~/.config/devinspect/config.toml`.
use vstd::prelude::*;

use crate::text::{chars_of, string_of};

verus! {

/// The settings of the configuration file; each may be missing.
pub struct AppConfig {
    pub default_theme: Option<String>,
    pub enable_telemetry: Option<bool>,
    pub ollama_host: Option<String>,
}

impl AppConfig {
    /// The settings used when no configuration can be read: the dark theme,
    /// telemetry off.
    pub fn fallback() -> (c: AppConfig)
        ensures
            c.default_theme matches Some(t) && t@ == "dark"@,
            c.enable_telemetry == Some(false),
            c.ollama_host is None,
    {
        AppConfig {
            default_theme: Some("dark".to_owned()),
            enable_telemetry: Some(false),
            ollama_host: None,
        }
    }
}

/// The address of the local Ollama service: the configured one, else
/// `127.0.0.1:11434`.
pub open spec fn ollama_address_text(config: Option<AppConfig>) -> Seq<char> {
    match config {
        Some(c) => match c.ollama_host {
            Some(h) => h@,
            None => "127.0.0.1:11434"@,
        },
        None => "127.0.0.1:11434"@,
    }
}

/// The address of the local Ollama service, given the configuration if one
/// could be read.
pub fn ollama_address(config: Option<&AppConfig>) -> (s: String)
    ensures
        s@ == ollama_address_text(match config {
            Some(c) => Some(*c),
            None => None,
        }),
{
    match config {
        Some(c) => match &c.ollama_host {
            Some(h) => string_of(&chars_of(h.as_str())),
            None => "127.0.0.1:11434".to_owned(),
        },
        None => "127.0.0.1:11434".to_owned(),
    }
}

} // verus!
