//! The OAuth token store: token sets keyed by provider name.
//!
//! This is the decrypted content of the store file; reading, decrypting,
//! encrypting and writing the file is done around it by the caller.
use vstd::prelude::*;

use crate::auth::{expiry_text, token_expired, OAuthTokenSet};
use crate::keyed::{
    drop_name, find_name, put_name, lemma_table_absent, lemma_table_at, lemma_table_names, lemma_table_without,
    lemma_without_distinct, names_ascending, names_distinct, insert_sorted, table_of, without_name,
};
use crate::text::seq_lt;

verus! {

/// OAuth token sets, one per provider name.
pub struct TokenStore {
    entries: Vec<(String, OAuthTokenSet)>,
}

/// Summary of a stored token set, without secrets.
#[derive(Debug, Clone, PartialEq, Eq)]
pub struct TokenSummary {
    /// Whether the access token has expired.
    pub is_expired: bool,
    /// Remaining lifetime, for people.
    pub expires_in: String,
    /// Whether a refresh token is available.
    pub has_refresh_token: bool,
    /// When the tokens were obtained (Unix seconds).
    pub obtained_at: i64,
}

/// `s` summarizes the token set `t` at `now`.
pub open spec fn summarizes(s: TokenSummary, t: OAuthTokenSet, now: i64) -> bool {
    &&& s.is_expired == token_expired(t.expires_at, now)
    &&& s.expires_in@ == expiry_text(t.expires_at, now)
    &&& s.has_refresh_token == t.refresh_token is Some
    &&& s.obtained_at == t.obtained_at
}

impl View for TokenStore {
    type V = Map<Seq<char>, OAuthTokenSet>;

    closed spec fn view(&self) -> Map<Seq<char>, OAuthTokenSet> {
        table_of(self.entries@)
    }
}

impl TokenStore {
    /// Each provider name occurs once.
    pub closed spec fn wf(&self) -> bool {
        names_distinct(self.entries@)
    }

    /// An empty store.
    pub fn new() -> (s: Self)
        ensures
            s.wf(),
            s@ == Map::<Seq<char>, OAuthTokenSet>::empty(),
    {
        TokenStore { entries: Vec::new() }
    }

    /// A store holding the given `(provider, tokens)` entries; a later entry
    /// of a provider replaces an earlier one.
    pub fn from_entries(entries: Vec<(String, OAuthTokenSet)>) -> (s: Self)
        ensures
            s.wf(),
            s@ == table_of(entries@),
    {
        let ghost all = entries@;
        let n: usize = entries.len();
        let mut rest = entries;
        let mut store = TokenStore::new();
        let mut i: usize = 0;
        while rest.len() > 0
            invariant
                i <= all.len(),
                all.len() == n,
                rest@ == all.skip(i as int),
                store.wf(),
                store@ == table_of(all.take(i as int)),
            decreases rest@.len(),
        {
            let (name, tokens) = rest.remove(0);
            assert(all.take(i + 1).drop_last() =~= all.take(i as int));
            assert(all.take(i + 1).last() == (name, tokens));
            assert(rest@ =~= all.skip(i + 1));
            store.put(name, tokens);
            i += 1;
        }
        assert(all.take(i as int) =~= all);
        store
    }

    /// Stores `tokens` under `name`, replacing what was there.
    fn put(&mut self, name: String, tokens: OAuthTokenSet)
        requires
            old(self).wf(),
        ensures
            final(self).wf(),
            final(self)@ == old(self)@.insert(name@, tokens),
    {
        put_name(&mut self.entries, name, tokens);
    }

    /// The token set stored for `provider`, if any.
    pub fn load(&self, provider: &str) -> (r: Option<OAuthTokenSet>)
        requires
            self.wf(),
        ensures
            match r {
                Some(t) => self@.contains_key(provider@) && t == self@[provider@],
                None => !self@.contains_key(provider@),
            },
    {
        match find_name(&self.entries, provider) {
            Some(i) => {
                proof {
                    lemma_table_at(self.entries@, i as int);
                }
                Some(self.entries[i].1.duplicate())
            },
            None => {
                proof {
                    lemma_table_absent(self.entries@, provider@);
                }
                None
            },
        }
    }

    /// Stores `tokens` under their provider name, replacing earlier tokens.
    pub fn save(&mut self, tokens: &OAuthTokenSet)
        requires
            old(self).wf(),
        ensures
            final(self).wf(),
            final(self)@ == old(self)@.insert(tokens.provider@, *tokens),
    {
        self.put(tokens.provider.clone(), tokens.duplicate());
    }

    /// Removes the tokens of `provider`; whether there were any.
    pub fn delete(&mut self, provider: &str) -> (removed: bool)
        requires
            old(self).wf(),
        ensures
            final(self).wf(),
            removed == old(self)@.contains_key(provider@),
            final(self)@ == old(self)@.remove(provider@),
    {
        let ghost before = self.entries@;
        let found = find_name(&self.entries, provider);
        proof {
            match found {
                Some(i) => {
                    lemma_table_at(before, i as int);
                },
                None => {
                    lemma_table_absent(before, provider@);
                },
            }
        }
        let mut entries = Vec::new();
        std::mem::swap(&mut entries, &mut self.entries);
        self.entries = drop_name(entries, provider);
        proof {
            lemma_table_without(before, provider@);
            lemma_without_distinct(before, provider@);
        }
        found.is_some()
    }

    /// The stored entries, for persisting them.
    pub fn entries(&self) -> (e: &[(String, OAuthTokenSet)])
        ensures
            table_of(e@) == self@,
            names_distinct(e@) == self.wf(),
    {
        self.entries.as_slice()
    }

    /// Summaries of all stored token sets at `now` (Unix seconds), by provider
    /// name in ascending order.
    pub fn list(&self, now: i64) -> (r: Vec<(String, TokenSummary)>)
        requires
            self.wf(),
        ensures
            r@.len() == self@.len(),
            names_ascending(r@),
            forall|i: int|
                0 <= i < r@.len() ==> self@.contains_key((#[trigger] r@[i]).0@) && summarizes(
                    r@[i].1,
                    self@[r@[i].0@],
                    now,
                ),
            forall|k: Seq<char>| #[trigger] self@.contains_key(k) ==> exists|i: int| 0 <= i < r@.len() && r@[i].0@ == k,
    {
        let ghost e = self.entries@;
        let mut out: Vec<(String, TokenSummary)> = Vec::new();
        let mut i: usize = 0;
        while i < self.entries.len()
            invariant
                e == self.entries@,
                names_distinct(e),
                i <= e.len(),
                out@.len() == i,
                names_ascending(out@),
                forall|j: int|
                    0 <= j < out@.len() ==> exists|m: int| 0 <= m < i && (#[trigger] out@[j]).0@ == e[m].0@
                        && summarizes(out@[j].1, e[m].1, now),
                forall|m: int| 0 <= m < i ==> exists|j: int| 0 <= j < out@.len() && (#[trigger] e[m]).0@ == out@[j].0@,
            decreases e.len() - i,
        {
            let (name, tokens) = &self.entries[i];
            let summary = TokenSummary {
                is_expired: tokens.is_expired(now),
                expires_in: tokens.expires_in_human(now),
                has_refresh_token: tokens.refresh_token.is_some(),
                obtained_at: tokens.obtained_at,
            };
            let ghost old_out = out@;
            proof {
                assert forall|j: int| 0 <= j < old_out.len() implies old_out[j].0@ != name@ by {
                    let m = choose|m: int| 0 <= m < i && (#[trigger] old_out[j]).0@ == e[m].0@ && summarizes(
                        old_out[j].1,
                        e[m].1,
                        now,
                    );
                    assert(e[m].0@ != e[i as int].0@);
                }
            }
            let p = insert_sorted(&mut out, (name.clone(), summary));
            proof {
                assert forall|j: int| 0 <= j < out@.len() implies exists|m: int|
                    0 <= m < i + 1 && (#[trigger] out@[j]).0@ == e[m].0@ && summarizes(out@[j].1, e[m].1, now) by {
                    if j < p {
                        assert(out@[j] == old_out[j]);
                    } else if j == p {
                        assert(out@[j].0@ == e[i as int].0@);
                    } else {
                        assert(out@[j] == old_out[j - 1]);
                    }
                }
                assert forall|m: int| 0 <= m < i + 1 implies exists|j: int|
                    0 <= j < out@.len() && (#[trigger] e[m]).0@ == out@[j].0@ by {
                    if m == i {
                        assert(out@[p as int].0@ == e[m].0@);
                    } else {
                        let j = choose|j: int| 0 <= j < old_out.len() && e[m].0@ == old_out[j].0@;
                        if j < p {
                            assert(out@[j] == old_out[j]);
                        } else {
                            assert(out@[j + 1] == old_out[j]);
                        }
                    }
                }
            }
            i += 1;
        }
        proof {
            assert forall|j: int| 0 <= j < out@.len() implies self@.contains_key((#[trigger] out@[j]).0@)
                && summarizes(out@[j].1, self@[out@[j].0@], now) by {
                let m = choose|m: int| 0 <= m < e.len() && (#[trigger] out@[j]).0@ == e[m].0@ && summarizes(
                    out@[j].1,
                    e[m].1,
                    now,
                );
                lemma_table_at(e, m);
            }
            assert forall|k: Seq<char>| #[trigger] self@.contains_key(k) implies exists|j: int|
                0 <= j < out@.len() && out@[j].0@ == k by {
                lemma_table_names(e, k);
                let m = choose|m: int| 0 <= m < e.len() && e[m].0@ == k;
                assert(e[m].0@ == k);
            }
            lemma_table_size(e);
        }
        out
    }
}

/// With distinct names, the map has as many names as there are entries.
proof fn lemma_table_size<V>(e: Seq<(String, V)>)
    requires
        names_distinct(e),
    ensures
        table_of(e).len() == e.len(),
        table_of(e).dom().finite(),
    decreases e.len(),
{
    if e.len() > 0 {
        let s = e.drop_last();
        assert(names_distinct(s));
        lemma_table_size(s);
        assert forall|i: int| 0 <= i < s.len() implies s[i].0@ != e.last().0@ by {
            assert(s[i] == e[i]);
        }
        lemma_table_absent(s, e.last().0@);
    }
}

/// What a save stores is what a later load of that provider gives back, and
/// a save leaves every other provider's tokens as they were.
pub proof fn lemma_load_after_save(
    before: Map<Seq<char>, OAuthTokenSet>,
    tokens: OAuthTokenSet,
    provider: Seq<char>,
)
    ensures
        before.insert(tokens.provider@, tokens).contains_key(tokens.provider@),
        before.insert(tokens.provider@, tokens)[tokens.provider@] == tokens,
        provider != tokens.provider@ ==> (before.insert(tokens.provider@, tokens).contains_key(provider)
            == before.contains_key(provider) && before.insert(tokens.provider@, tokens)[provider]
            == before[provider]),
{
}

} // verus!
