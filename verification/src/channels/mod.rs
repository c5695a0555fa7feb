//! Messaging channels: access control shared by all channels and the
//! protocol logic of the MQTT, WhatsApp Web, Webex and ACP channels.
use vstd::prelude::*;

use crate::text::{str_eq, to_owned_string};

pub use crate::bus::{MediaType, OutboundMessage};

pub mod acp;
pub mod mqtt;
pub mod serial;
pub mod webex;
pub mod whatsapp_web;

verus! {

/// Name, allowlist and default policy of a channel.
#[derive(Debug, Clone, PartialEq, Eq)]
pub struct BaseChannelConfig {
    pub name: String,
    pub allowlist: Vec<String>,
    pub deny_by_default: bool,
}

/// Whether a sender is let in: with an empty allowlist, unless the channel
/// denies by default; otherwise when the allowlist names the sender.
pub open spec fn allowed_by(allowlist: Seq<Seq<char>>, deny_by_default: bool, user: Seq<char>) -> bool {
    if allowlist.len() == 0 {
        !deny_by_default
    } else {
        allowlist.contains(user)
    }
}

/// Whether `list` holds an entry equal to `item`.
pub fn contains_string(list: &Vec<String>, item: &str) -> (r: bool)
    ensures
        r == list@.map_values(|s: String| s@).contains(item@),
{
    let ghost v = list@.map_values(|s: String| s@);
    let mut i: usize = 0;
    while i < list.len()
        invariant
            i <= list.len(),
            v == list@.map_values(|s: String| s@),
            forall|j: int| 0 <= j < i ==> v[j] != item@,
        decreases list.len() - i,
    {
        if str_eq(list[i].as_str(), item) {
            assert(v[i as int] == item@);
            return true;
        }
        i += 1;
    }
    false
}

impl BaseChannelConfig {
    /// A channel open to everyone.
    pub fn new(name: &str) -> (c: Self)
        ensures
            c.name@ == name@,
            c.allowlist@.len() == 0,
            !c.deny_by_default,
    {
        BaseChannelConfig { name: to_owned_string(name), allowlist: Vec::new(), deny_by_default: false }
    }

    /// A channel restricted to `allowlist`.
    pub fn with_allowlist(name: &str, allowlist: Vec<String>) -> (c: Self)
        ensures
            c.name@ == name@,
            c.allowlist@ == allowlist@,
            !c.deny_by_default,
    {
        BaseChannelConfig { name: to_owned_string(name), allowlist, deny_by_default: false }
    }

    /// Whether `user_id` may talk to the agent on this channel.
    pub fn is_allowed(&self, user_id: &str) -> (r: bool)
        ensures
            r == allowed_by(
                self.allowlist@.map_values(|s: String| s@),
                self.deny_by_default,
                user_id@,
            ),
    {
        if self.allowlist.len() == 0 {
            !self.deny_by_default
        } else {
            contains_string(&self.allowlist, user_id)
        }
    }
}

} // verus!
