//! Session loading: the inbound text joins the conversation history.
use vstd::prelude::*;

use crate::session::{ContentPart, Message, Role};

verus! {

/// Loads or creates the session and appends the inbound user message.
#[derive(Debug)]
pub struct SessionMiddleware;

impl SessionMiddleware {
    /// The session middleware.
    pub fn new() -> (m: Self) {
        SessionMiddleware
    }

    /// The middleware's name.
    pub fn name(&self) -> (s: &'static str)
        ensures
            s@ == "session"@,
    {
        "session"
    }

    /// Appends the inbound text to the history as a user message.
    pub fn append_user_message(history: &mut Vec<Message>, content: &str)
        ensures
            final(history)@.len() == old(history)@.len() + 1,
            final(history)@.take(old(history)@.len() as int) == old(history)@,
            final(history)@.last().role == Role::User,
            final(history)@.last().content@ == content@,
            final(history)@.last().content_parts@.len() == 1,
            final(history)@.last().content_parts@[0] matches ContentPart::Text { text } && text@ == content@,
            final(history)@.last().tool_calls is None,
            final(history)@.last().tool_call_id is None,
    {
        let m = Message::user(content);
        history.push(m);
        assert(history@.take(history@.len() - 1) =~= old(history)@);
    }
}

} // verus!
