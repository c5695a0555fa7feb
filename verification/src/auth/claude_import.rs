//! Credentials imported from the Anthropic command-line clients: the OAuth
//! fields they store (in the system keychain or in their JSON config file in
//! the home directory) become an [`OAuthTokenSet`] for the Anthropic provider.
use vstd::prelude::*;

use crate::auth::{OAuthTokenSet, CLAUDE_CODE_CLIENT_ID};
use crate::text::to_owned_string;

verus! {

/// The OAuth fields stored by the client (camelCase in its JSON).
#[derive(Debug, Clone, PartialEq, Eq)]
pub struct ClaudeOAuth {
    pub access_token: Option<String>,
    pub refresh_token: Option<String>,
    /// Expiry in milliseconds since the epoch.
    pub expires_at: Option<i64>,
}

/// The client's credential document (its OAuth object in the JSON).
#[derive(Debug, Clone, PartialEq, Eq)]
pub struct ClaudeConfigFile {
    pub claude_ai_oauth: Option<ClaudeOAuth>,
}

/// The text of an optional field, when present and not empty.
pub open spec fn non_empty(o: Option<String>) -> Option<Seq<char>> {
    match o {
        Some(s) => if s@.len() > 0 {
            Some(s@)
        } else {
            None
        },
        None => None,
    }
}

/// Milliseconds to seconds, truncating toward zero (integer division).
pub open spec fn millis_to_secs(ms: int) -> int {
    if ms >= 0 {
        ms / 1000
    } else {
        -((-ms) / 1000)
    }
}

/// `t` is the Anthropic token set imported from `oauth` at `now`.
pub open spec fn is_claude_import(t: OAuthTokenSet, oauth: ClaudeOAuth, now: i64) -> bool {
    &&& non_empty(oauth.access_token) == Some(t.access_token@)
    &&& t.provider@ == "anthropic"@
    &&& match non_empty(oauth.refresh_token) {
        Some(r) => t.refresh_token matches Some(x) && x@ == r,
        None => t.refresh_token is None,
    }
    &&& match oauth.expires_at {
        Some(ms) => t.expires_at == Some(millis_to_secs(ms as int) as i64),
        None => t.expires_at is None,
    }
    &&& t.token_type@ == "Bearer"@
    &&& t.scope is None
    &&& t.obtained_at == now
    &&& t.client_id matches Some(c) && c@ == CLAUDE_CODE_CLIENT_ID@
}

/// Whether a credential document yields a token set (an access token is stored).
pub open spec fn claude_importable(c: Option<ClaudeConfigFile>) -> bool {
    c matches Some(f) && f.claude_ai_oauth matches Some(o) && non_empty(o.access_token) is Some
}

/// The stored text, when present and not empty.
fn take_non_empty(o: Option<String>) -> (r: Option<String>)
    ensures
        match r {
            Some(s) => non_empty(o) == Some(s@),
            None => non_empty(o) is None,
        },
{
    match o {
        Some(s) => if s.as_str().is_empty() {
            None
        } else {
            Some(s)
        },
        None => None,
    }
}

/// The Anthropic token set for a credential document read at `now` (Unix
/// seconds); `None` when it holds no access token.
pub fn token_set_from_claude(config: ClaudeConfigFile, now: i64) -> (r: Option<OAuthTokenSet>)
    ensures
        match r {
            Some(t) => claude_importable(Some(config)) && is_claude_import(t, config.claude_ai_oauth->0, now),
            None => !claude_importable(Some(config)),
        },
{
    let oauth = match config.claude_ai_oauth {
        Some(o) => o,
        None => return None,
    };
    let ghost o = oauth;
    let access_token = match take_non_empty(oauth.access_token) {
        Some(t) => t,
        None => return None,
    };
    let refresh_token = take_non_empty(oauth.refresh_token);
    let expires_at = match oauth.expires_at {
        Some(ms) => {
            let m = ms as i128;
            let q: i128 = if m >= 0 { m / 1000 } else { -((-m) / 1000) };
            Some(q as i64)
        },
        None => None,
    };
    let t = OAuthTokenSet {
        provider: to_owned_string("anthropic"),
        access_token,
        refresh_token,
        expires_at,
        token_type: to_owned_string("Bearer"),
        scope: None,
        obtained_at: now,
        client_id: Some(to_owned_string(CLAUDE_CODE_CLIENT_ID)),
    };
    assert(is_claude_import(t, o, now));
    Some(t)
}

/// The token set of the first credential source (keychain entries in service
/// order, then the config file) that yields one.
pub open spec fn first_claude_import(sources: Seq<Option<ClaudeConfigFile>>) -> Option<int>
    decreases sources.len(),
{
    if sources.len() == 0 {
        None
    } else if claude_importable(sources[0]) {
        Some(0)
    } else {
        match first_claude_import(sources.drop_first()) {
            Some(i) => Some(i + 1),
            None => None,
        }
    }
}

proof fn lemma_first_claude_import(sources: Seq<Option<ClaudeConfigFile>>, i: int)
    requires
        0 <= i <= sources.len(),
        forall|j: int| 0 <= j < i ==> !claude_importable(#[trigger] sources[j]),
    ensures
        i < sources.len() && claude_importable(sources[i]) ==> first_claude_import(sources) == Some(i),
        i == sources.len() ==> first_claude_import(sources) is None,
    decreases i,
{
    if i > 0 {
        assert forall|j: int| 0 <= j < i - 1 implies !claude_importable(#[trigger] sources.drop_first()[j]) by {
            assert(sources.drop_first()[j] == sources[j + 1]);
        }
        if i < sources.len() {
            assert(sources.drop_first()[i - 1] == sources[i]);
        }
        lemma_first_claude_import(sources.drop_first(), i - 1);
    }
}

/// Imported Anthropic credentials: the token set of the first of the parsed
/// credential documents (keychain entries in service order, then the config
/// file; `None` for a source that was missing or unreadable) that stores an
/// access token, read at `now`.
pub fn read_claude_credentials(sources: Vec<Option<ClaudeConfigFile>>, now: i64) -> (r: Option<
    OAuthTokenSet,
>)
    ensures
        match first_claude_import(sources@) {
            Some(i) => r matches Some(t) && is_claude_import(t, sources@[i]->0.claude_ai_oauth->0, now),
            None => r is None,
        },
{
    let ghost all = sources@;
    let n: usize = sources.len();
    let mut rest = sources;
    let mut i: usize = 0;
    while rest.len() > 0
        invariant
            all == sources@,
            i <= all.len(),
            all.len() == n,
            rest@ == all.skip(i as int),
            forall|j: int| 0 <= j < i ==> !claude_importable(#[trigger] all[j]),
        decreases rest@.len(),
    {
        let s = rest.remove(0);
        assert(s == all[i as int]);
        assert(rest@ =~= all.skip(i + 1));
        if let Some(config) = s {
            let ghost cfg = config;
            assert(all[i as int] == Some(cfg));
            if let Some(t) = token_set_from_claude(config, now) {
                assert(claude_importable(all[i as int]));
                proof {
                    lemma_first_claude_import(all, i as int);
                }
                assert(all[i as int]->0.claude_ai_oauth->0 == cfg.claude_ai_oauth->0);
                return Some(t);
            }
        }
        i += 1;
    }
    proof {
        lemma_first_claude_import(all, i as int);
    }
    None
}

} // verus!
