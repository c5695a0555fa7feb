//! Building the message list for the model: empty user messages are dropped.
use vstd::prelude::*;

use crate::session::{has_image_part, Message, Role};

verus! {

/// Builds the resolved messages, tool definitions and chat options.
#[derive(Debug)]
pub struct ContextBuildMiddleware;

/// Whether a message is sent to the model: every message but a user message
/// with empty content and no image.
pub open spec fn is_sendable(m: Message) -> bool {
    !(m.role == Role::User && m.content@.len() == 0 && !has_image_part(m.content_parts@))
}

/// The sendable messages of `s`, in order.
pub open spec fn sendable(s: Seq<Message>) -> Seq<Message>
    decreases s.len(),
{
    if s.len() == 0 {
        s
    } else if is_sendable(s.last()) {
        sendable(s.drop_last()).push(s.last())
    } else {
        sendable(s.drop_last())
    }
}

impl ContextBuildMiddleware {
    /// The context-build middleware.
    pub fn new() -> (m: Self) {
        ContextBuildMiddleware
    }

    /// The middleware's name.
    pub fn name(&self) -> (s: &'static str)
        ensures
            s@ == "context_build"@,
    {
        "context_build"
    }

    /// Drops the user messages with empty content and no image (for example
    /// after a failed image resolution), keeping the order of the rest.
    pub fn drop_empty_user_messages(msgs: Vec<Message>) -> (r: Vec<Message>)
        ensures
            r@ == sendable(msgs@),
    {
        let ghost all = msgs@;
        let n: usize = msgs.len();
        let mut rest = msgs;
        let mut out: Vec<Message> = Vec::new();
        let mut i: usize = 0;
        while rest.len() > 0
            invariant
                i <= all.len(),
                all.len() == n,
                rest@ == all.skip(i as int),
                out@ == sendable(all.take(i as int)),
            decreases rest@.len(),
        {
            let m = rest.remove(0);
            assert(all.take(i + 1).drop_last() =~= all.take(i as int));
            assert(all.take(i + 1).last() == m);
            assert(rest@ =~= all.skip(i + 1));
            let keep = !(m.role == Role::User && m.content.as_str().is_empty() && !m.has_images());
            if keep {
                out.push(m);
            }
            i += 1;
        }
        assert(all.take(i as int) =~= all);
        out
    }
}

} // verus!
