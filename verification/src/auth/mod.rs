//! OAuth credentials: token sets, provider configuration, PKCE flow helpers,
//! token storage and credential import from other CLIs.
use vstd::prelude::*;

use crate::text::{decimal, push_str, to_owned_string, u64_to_decimal};

pub mod claude_import;
pub mod codex_import;
pub mod oauth;
pub mod store;

verus! {

/// OAuth client ID under which the Anthropic command-line client issues its credentials.
pub const CLAUDE_CODE_CLIENT_ID: &'static str = "9d1c250a-e61b-44d9-88ed-5944d1962f5e";

/// A set of OAuth tokens obtained for one provider.
#[derive(Debug, Clone, PartialEq, Eq)]
pub struct OAuthTokenSet {
    pub provider: String,
    pub access_token: String,
    pub refresh_token: Option<String>,
    /// Expiry as a unix timestamp in seconds.
    pub expires_at: Option<i64>,
    pub token_type: String,
    pub scope: Option<String>,
    /// When the tokens were obtained (unix seconds).
    pub obtained_at: i64,
    pub client_id: Option<String>,
}

/// Whether tokens expiring at `expires_at` have expired at `now` (never when
/// there is no expiry).
pub open spec fn token_expired(expires_at: Option<i64>, now: i64) -> bool {
    match expires_at {
        Some(t) => now >= t,
        None => false,
    }
}

/// Remaining lifetime as text: `no expiry`, `expired`, `<m>m` under an hour,
/// else `<h>h <m>m`.
pub open spec fn expiry_text(expires_at: Option<i64>, now: i64) -> Seq<char> {
    match expires_at {
        None => "no expiry"@,
        Some(t) => {
            let left = t - now;
            if left <= 0 {
                "expired"@
            } else if left < 3600 {
                decimal((left / 60) as nat) + "m"@
            } else {
                decimal((left / 3600) as nat) + "h "@ + decimal(((left % 3600) / 60) as nat) + "m"@
            }
        },
    }
}

impl OAuthTokenSet {
    /// An equal copy.
    pub fn duplicate(&self) -> (t: OAuthTokenSet)
        ensures
            t == *self,
    {
        OAuthTokenSet {
            provider: self.provider.clone(),
            access_token: self.access_token.clone(),
            refresh_token: self.refresh_token.clone(),
            expires_at: self.expires_at,
            token_type: self.token_type.clone(),
            scope: self.scope.clone(),
            obtained_at: self.obtained_at,
            client_id: self.client_id.clone(),
        }
    }

    /// Whether the access token has expired at `now` (Unix seconds).
    pub fn is_expired(&self, now: i64) -> (r: bool)
        ensures
            r == token_expired(self.expires_at, now),
    {
        match self.expires_at {
            Some(t) => now >= t,
            None => false,
        }
    }

    /// The remaining lifetime at `now` (Unix seconds), for people.
    pub fn expires_in_human(&self, now: i64) -> (s: String)
        ensures
            s@ == expiry_text(self.expires_at, now),
    {
        match self.expires_at {
            None => to_owned_string("no expiry"),
            Some(t) => {
                let left: i128 = t as i128 - now as i128;
                if left <= 0 {
                    to_owned_string("expired")
                } else if left < 3600 {
                    let mut s = u64_to_decimal((left / 60) as u64);
                    push_str(&mut s, "m");
                    s
                } else {
                    let mut s = u64_to_decimal((left / 3600) as u64);
                    push_str(&mut s, "h ");
                    let m = u64_to_decimal(((left % 3600) / 60) as u64);
                    push_str(&mut s, m.as_str());
                    push_str(&mut s, "m");
                    s
                }
            },
        }
    }
}

/// OAuth endpoints and scopes of a provider.
#[derive(Debug, Clone, PartialEq, Eq)]
pub struct ProviderOAuthConfig {
    pub provider: String,
    pub token_url: String,
    pub authorize_url: String,
    pub client_name: String,
    pub scopes: Vec<String>,
}

} // verus!
