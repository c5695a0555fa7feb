//! Control-panel configuration.
use vstd::prelude::*;

use crate::text::to_owned_string;

verus! {

/// How panel requests are authenticated.
#[derive(Debug, Clone, Copy, Default, PartialEq, Eq)]
pub enum AuthMode {
    /// Bearer token, no login screen (the default).
    #[default]
    Token,
    /// Username and password login with a JWT session.
    Password,
    /// No authentication: localhost trust only (`none` in configuration files).
    Disabled,
}

/// Control-panel configuration.
#[derive(Debug, Clone, PartialEq, Eq)]
pub struct PanelConfig {
    /// Whether the panel is enabled.
    pub enabled: bool,
    /// Port of the panel frontend.
    pub port: u16,
    /// Port of the API server.
    pub api_port: u16,
    /// Authentication mode.
    pub auth_mode: AuthMode,
    /// Bind address.
    pub bind: String,
}

impl Default for PanelConfig {
    /// Disabled, frontend on 9092, API on 9091, token auth, bound to 127.0.0.1.
    fn default() -> (c: Self)
        ensures
            !c.enabled,
            c.port == 9092,
            c.api_port == 9091,
            c.auth_mode == AuthMode::Token,
            c.bind@ == "127.0.0.1"@,
    {
        PanelConfig {
            enabled: false,
            port: 9092,
            api_port: 9091,
            auth_mode: AuthMode::Token,
            bind: to_owned_string("127.0.0.1"),
        }
    }
}

} // verus!
