//! Messages exchanged between channels and the agent, and their routing
//! metadata.
use vstd::prelude::*;

use crate::text::{str_eq, to_owned_string};

verus! {

/// Kind of a media attachment.
#[derive(Debug, Clone, Copy, PartialEq, Eq)]
pub enum MediaType {
    Image,
    Audio,
    Video,
    Document,
}

/// A message the agent sends out on a channel.
#[derive(Debug, Clone, PartialEq, Eq)]
pub struct OutboundMessage {
    pub channel: String,
    pub chat_id: String,
    pub content: String,
    pub reply_to: Option<String>,
    /// Channel-specific routing data, as `(key, value)` pairs.
    pub metadata: Vec<(String, String)>,
}

/// A message a channel received for the agent.
#[derive(Debug, Clone, PartialEq, Eq)]
pub struct InboundMessage {
    pub channel: String,
    pub sender_id: String,
    pub chat_id: String,
    pub content: String,
    /// The conversation this message belongs to.
    pub session_key: String,
    /// Channel-specific routing data and overrides, as `(key, value)` pairs.
    pub metadata: Vec<(String, String)>,
}

/// The position of the first entry of `md` under `key`.
pub open spec fn meta_index(md: Seq<(String, String)>, key: Seq<char>) -> Option<int>
    decreases md.len(),
{
    if md.len() == 0 {
        None
    } else if md[0].0@ == key {
        Some(0)
    } else {
        match meta_index(md.drop_first(), key) {
            Some(i) => Some(i + 1),
            None => None,
        }
    }
}

/// The value stored under `key` (its first entry), if any.
pub open spec fn meta_get(md: Seq<(String, String)>, key: Seq<char>) -> Option<Seq<char>> {
    match meta_index(md, key) {
        Some(i) => Some(md[i].1@),
        None => None,
    }
}

proof fn lemma_meta_index(md: Seq<(String, String)>, key: Seq<char>, i: int)
    requires
        0 <= i <= md.len(),
        forall|j: int| 0 <= j < i ==> md[j].0@ != key,
    ensures
        i < md.len() && md[i].0@ == key ==> meta_index(md, key) == Some(i),
        i == md.len() ==> meta_index(md, key) is None,
    decreases i,
{
    if i > 0 {
        assert forall|j: int| 0 <= j < i - 1 implies md.drop_first()[j].0@ != key by {
            assert(md.drop_first()[j] == md[j + 1]);
        }
        if i < md.len() {
            assert(md.drop_first()[i - 1] == md[i]);
        }
        lemma_meta_index(md.drop_first(), key, i - 1);
    }
}

proof fn lemma_meta_index_bounds(md: Seq<(String, String)>, key: Seq<char>)
    ensures
        meta_index(md, key) matches Some(i) ==> 0 <= i < md.len() && md[i].0@ == key && forall|j: int|
            0 <= j < i ==> md[j].0@ != key,
        meta_index(md, key) is None ==> forall|j: int| 0 <= j < md.len() ==> md[j].0@ != key,
    decreases md.len(),
{
    if md.len() > 0 {
        lemma_meta_index_bounds(md.drop_first(), key);
        assert forall|j: int| 1 <= j < md.len() implies md[j] == md.drop_first()[j - 1] by {}
    }
}

/// The position of the first entry of `md` under `key`.
pub fn find_meta(md: &Vec<(String, String)>, key: &str) -> (r: Option<usize>)
    ensures
        match r {
            Some(i) => i < md@.len() && meta_index(md@, key@) == Some(i as int),
            None => meta_index(md@, key@) is None,
        },
{
    let mut i: usize = 0;
    while i < md.len()
        invariant
            i <= md@.len(),
            forall|j: int| 0 <= j < i ==> md@[j].0@ != key@,
        decreases md@.len() - i,
    {
        if str_eq(md[i].0.as_str(), key) {
            proof { lemma_meta_index(md@, key@, i as int); }
            return Some(i);
        }
        i += 1;
    }
    proof { lemma_meta_index(md@, key@, i as int); }
    None
}

/// The value stored under `key`, if any.
pub fn get_meta<'a>(md: &'a Vec<(String, String)>, key: &str) -> (r: Option<&'a String>)
    ensures
        match r {
            Some(v) => meta_get(md@, key@) == Some(v@),
            None => meta_get(md@, key@) is None,
        },
{
    match find_meta(md, key) {
        Some(i) => Some(&md[i].1),
        None => None,
    }
}

/// Stores `value` under `key`: the first entry under `key` is overwritten, or a
/// new entry is appended when there is none.
pub fn insert_meta(md: &mut Vec<(String, String)>, key: &str, value: String)
    ensures
        meta_get(final(md)@, key@) == Some(value@),
        forall|k: Seq<char>| k != key@ ==> meta_get(final(md)@, k) == meta_get(old(md)@, k),
{
    let ghost before = md@;
    proof { lemma_meta_index_bounds(before, key@); }
    match find_meta(md, key) {
        Some(i) => {
            md.set(i, (to_owned_string(key), value));
            proof {
                lemma_meta_index(md@, key@, i as int);
                assert forall|k: Seq<char>| k != key@ implies meta_get(md@, k) == meta_get(before, k) by {
                    lemma_meta_index_bounds(before, k);
                    lemma_meta_index_bounds(md@, k);
                    match meta_index(before, k) {
                        Some(j) => {
                            lemma_meta_index(md@, k, j);
                        },
                        None => {
                            lemma_meta_index(md@, k, md@.len() as int);
                        },
                    }
                }
            }
        },
        None => {
            md.push((to_owned_string(key), value));
            proof {
                lemma_meta_index(md@, key@, before.len() as int);
                assert forall|k: Seq<char>| k != key@ implies meta_get(md@, k) == meta_get(before, k) by {
                    lemma_meta_index_bounds(before, k);
                    match meta_index(before, k) {
                        Some(j) => {
                            lemma_meta_index(md@, k, j);
                        },
                        None => {
                            lemma_meta_index(md@, k, md@.len() as int);
                        },
                    }
                }
            }
        },
    }
}

/// Copies the inbound `telegram_thread_id` routing entry, when there is one,
/// onto the outbound message so that the reply lands in the same thread.
pub fn propagate_routing_metadata(outbound: &mut OutboundMessage, inbound: &InboundMessage)
    ensures
        final(outbound).channel == old(outbound).channel,
        final(outbound).chat_id == old(outbound).chat_id,
        final(outbound).content == old(outbound).content,
        final(outbound).reply_to == old(outbound).reply_to,
        match meta_get(inbound.metadata@, "telegram_thread_id"@) {
            Some(tid) => {
                &&& meta_get(final(outbound).metadata@, "telegram_thread_id"@) == Some(tid)
                &&& forall|k: Seq<char>| k != "telegram_thread_id"@ ==> meta_get(final(outbound).metadata@, k)
                    == meta_get(old(outbound).metadata@, k)
            },
            None => final(outbound).metadata == old(outbound).metadata,
        },
{
    match get_meta(&inbound.metadata, "telegram_thread_id") {
        Some(tid) => {
            insert_meta(&mut outbound.metadata, "telegram_thread_id", tid.clone());
        },
        None => {},
    }
}

} // verus!
