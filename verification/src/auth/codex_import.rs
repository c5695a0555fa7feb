//! Credentials imported from the OpenAI Codex command-line client: the tokens
//! it stores (in the system keychain or `$CODEX_HOME/auth.json`) become an
//! [`OAuthTokenSet`] for the OpenAI provider.
use vstd::prelude::*;

use crate::auth::claude_import::non_empty;
use crate::auth::OAuthTokenSet;
use crate::digest::{hex_encode, hex_lower, lemma_hex_lower_len, sha256_digest, sha256_spec};
use crate::text::{chars_of, path_join, push_str, string_from_char_range, to_owned_string};

verus! {

/// How long a keychain access token is taken to be valid, in seconds.
pub const CODEX_TOKEN_LIFETIME_SECS: i64 = 3600;

/// The tokens stored by the client.
#[derive(Debug, Clone, PartialEq, Eq)]
pub struct CodexTokens {
    pub access_token: Option<String>,
    pub refresh_token: Option<String>,
}

/// The client's `auth.json` document.
#[derive(Debug, Clone, PartialEq, Eq)]
pub struct CodexAuthFile {
    pub tokens: Option<CodexTokens>,
}

/// The client's keychain entry, which also records when the tokens were refreshed.
#[derive(Debug, Clone, PartialEq, Eq)]
pub struct CodexKeychainData {
    pub tokens: Option<CodexTokens>,
    /// RFC 3339 time of the last refresh.
    pub last_refresh: Option<String>,
}

/// The instant that `chrono::DateTime::parse_from_rfc3339` reads in `s`, as
/// Unix seconds and the nanoseconds past them; `None` when it rejects the text.
/// It depends on the text alone.
pub uninterp spec fn rfc3339_instant(s: Seq<char>) -> Option<(i64, u32)>;

/// `chrono::DateTime::parse_from_rfc3339(s)`, then `timestamp()` and
/// `timestamp_subsec_nanos()`: the result is named `rfc3339_instant`. chrono's
/// dates lie within years ±262143, so the seconds are below 9 * 10^12 in
/// magnitude, and the nanoseconds stay below 2 * 10^9 (a leap second counts
/// past 10^9).
#[verifier::external_body]
pub(crate) fn parse_rfc3339_instant(s: &str) -> (r: Option<(i64, u32)>)
    ensures
        r == rfc3339_instant(s@),
        r matches Some(t) ==> -9_000_000_000_000 <= t.0 <= 9_000_000_000_000 && t.1
            < 2_000_000_000,
{
    match chrono::DateTime::parse_from_rfc3339(s) {
        Ok(dt) => Some((dt.timestamp(), dt.timestamp_subsec_nanos())),
        Err(_) => None,
    }
}

/// `t` holds the OpenAI access and refresh tokens of `tokens`.
pub open spec fn carries_codex_tokens(t: OAuthTokenSet, tokens: CodexTokens) -> bool {
    &&& non_empty(tokens.access_token) == Some(t.access_token@)
    &&& t.provider@ == "openai"@
    &&& match non_empty(tokens.refresh_token) {
        Some(r) => t.refresh_token matches Some(x) && x@ == r,
        None => t.refresh_token is None,
    }
    &&& t.token_type@ == "Bearer"@
    &&& t.scope is None
    &&& t.client_id is None
}

/// Whether stored tokens include an access token.
pub open spec fn codex_importable(tokens: Option<CodexTokens>) -> bool {
    tokens matches Some(tk) && non_empty(tk.access_token) is Some
}

/// When keychain tokens were obtained: their last refresh, when it parses,
/// else `now`.
pub open spec fn codex_obtained_at(last_refresh: Option<String>, now: i64) -> i64 {
    match last_refresh {
        Some(s) => match rfc3339_instant(s@) {
            Some(t) => t.0,
            None => now,
        },
        None => now,
    }
}

/// The OpenAI token set with the given stored tokens, obtained at `obtained_at`.
fn codex_token_set(tokens: CodexTokens, obtained_at: i64, expires_at: Option<i64>) -> (r: Option<
    OAuthTokenSet,
>)
    ensures
        match r {
            Some(t) => codex_importable(Some(tokens)) && carries_codex_tokens(t, tokens) && t.obtained_at
                == obtained_at && t.expires_at == expires_at,
            None => !codex_importable(Some(tokens)),
        },
{
    let ghost tk = tokens;
    let access_token = match tokens.access_token {
        Some(s) => if s.as_str().is_empty() {
            return None;
        } else {
            s
        },
        None => return None,
    };
    let refresh_token = match tokens.refresh_token {
        Some(s) => if s.as_str().is_empty() {
            None
        } else {
            Some(s)
        },
        None => None,
    };
    let t = OAuthTokenSet {
        provider: to_owned_string("openai"),
        access_token,
        refresh_token,
        expires_at,
        token_type: to_owned_string("Bearer"),
        scope: None,
        obtained_at,
        client_id: None,
    };
    assert(carries_codex_tokens(t, tk));
    Some(t)
}

/// The token set for an `auth.json` document read at `now`: obtained now,
/// with no known expiry; `None` without an access token.
pub fn token_set_from_auth_file(file: CodexAuthFile, now: i64) -> (r: Option<OAuthTokenSet>)
    ensures
        match r {
            Some(t) => codex_importable(file.tokens) && carries_codex_tokens(t, file.tokens->0)
                && t.obtained_at == now && t.expires_at is None,
            None => !codex_importable(file.tokens),
        },
{
    match file.tokens {
        Some(tokens) => codex_token_set(tokens, now, None),
        None => None,
    }
}

/// The token set for a keychain entry read at `now`: obtained at its last
/// refresh (or now) and valid for an hour from then; `None` without an access token.
pub fn token_set_from_keychain(data: CodexKeychainData, now: i64) -> (r: Option<OAuthTokenSet>)
    requires
        -9_000_000_000_000 <= now <= 9_000_000_000_000,
    ensures
        match r {
            Some(t) => codex_importable(data.tokens) && carries_codex_tokens(t, data.tokens->0)
                && t.obtained_at == codex_obtained_at(data.last_refresh, now) && t.expires_at == Some(
                (codex_obtained_at(data.last_refresh, now) + CODEX_TOKEN_LIFETIME_SECS) as i64,
            ),
            None => !codex_importable(data.tokens),
        },
{
    let obtained_at = match &data.last_refresh {
        Some(s) => match parse_rfc3339_instant(s.as_str()) {
            Some(t) => t.0,
            None => now,
        },
        None => now,
    };
    match data.tokens {
        Some(tokens) => codex_token_set(tokens, obtained_at, Some(obtained_at + CODEX_TOKEN_LIFETIME_SECS)),
        None => None,
    }
}

/// Imported OpenAI credentials: the keychain entry when it yields a token
/// set, else the `auth.json` document (`None` for a source that was missing
/// or unreadable), read at `now`.
pub fn read_codex_credentials(
    keychain: Option<CodexKeychainData>,
    auth_file: Option<CodexAuthFile>,
    now: i64,
) -> (r: Option<OAuthTokenSet>)
    requires
        -9_000_000_000_000 <= now <= 9_000_000_000_000,
    ensures
        match keychain {
            Some(k) if codex_importable(k.tokens) => r matches Some(t) && carries_codex_tokens(
                t,
                k.tokens->0,
            ) && t.obtained_at == codex_obtained_at(k.last_refresh, now),
            _ => match auth_file {
                Some(f) => if codex_importable(f.tokens) {
                    r matches Some(t) && carries_codex_tokens(t, f.tokens->0) && t.obtained_at == now
                        && t.expires_at is None
                } else {
                    r is None
                },
                None => r is None,
            },
        },
{
    if let Some(k) = keychain {
        if let Some(t) = token_set_from_keychain(k, now) {
            return Some(t);
        }
    }
    match auth_file {
        Some(f) => token_set_from_auth_file(f, now),
        None => None,
    }
}

/// The client's home directory: `$CODEX_HOME` when set and not empty, else
/// `.codex` under the user's home directory.
pub fn resolve_codex_home(env_codex_home: Option<String>, home: Option<String>) -> (r: Option<String>)
    ensures
        match env_codex_home {
            Some(e) if e@.len() > 0 => r matches Some(s) && s@ == e@,
            _ => match home {
                Some(h) => r matches Some(s) && s@ == path_join(h@, ".codex"@),
                None => r is None,
            },
        },
{
    if let Some(e) = env_codex_home {
        if !e.as_str().is_empty() {
            return Some(e);
        }
    }
    match home {
        Some(h) => {
            let hc = chars_of(h.as_str());
            let mut r = h;
            proof {
                reveal_strlit(".codex");
            }
            if hc.len() > 0 && hc[hc.len() - 1] != '/' {
                crate::text::push_char(&mut r, '/');
            }
            push_str(&mut r, ".codex");
            Some(r)
        },
        None => None,
    }
}

/// The keychain account of a client home: `cli|` followed by the first 16 hex
/// digits of the SHA-256 of the home path.
pub fn keychain_account(codex_home: &str) -> (s: String)
    ensures
        s@ == "cli|"@ + hex_lower(sha256_spec(vstd::utf8::encode_utf8(codex_home@))).take(16),
{
    let digest = sha256_digest(codex_home.as_bytes());
    let hex = hex_encode(digest.as_slice());
    proof {
        lemma_hex_lower_len(digest@);
    }
    let hc = chars_of(hex.as_str());
    let head = string_from_char_range(hc.as_slice(), 0, 16);
    let mut s = to_owned_string("cli|");
    push_str(&mut s, head.as_str());
    s
}

} // verus!
