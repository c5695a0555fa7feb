//! ACP (Agent Client Protocol) stdio channel: request dispatch, the session
//! and pending-prompt state, and prompt text extraction.
use vstd::prelude::*;

use crate::api::auth::random_uuid_simple;
use crate::bus::OutboundMessage;
use crate::channels::mqtt::{digit_value, digits_value, lemma_digits_mono};
use crate::keyed::{find_name, lemma_table_absent, lemma_table_at, names_distinct, put_name, table_of, take_name};
use crate::text::{is_prefix, join_seq, push_str, str_eq, to_owned_string, trim, trim_spec};

verus! {

/// A content block of an ACP `session/prompt` request.
#[derive(Debug, Clone, PartialEq, Eq)]
pub enum PromptContentBlock {
    Text { text: String },
    Other,
}

/// The texts of the text blocks, in order.
pub open spec fn text_blocks(blocks: Seq<PromptContentBlock>) -> Seq<Seq<char>>
    decreases blocks.len(),
{
    if blocks.len() == 0 {
        Seq::empty()
    } else {
        let rest = text_blocks(blocks.drop_last());
        match blocks.last() {
            PromptContentBlock::Text { text } => rest.push(text@),
            PromptContentBlock::Other => rest,
        }
    }
}

/// The prompt as text: text blocks joined by newlines, then trimmed.
pub fn prompt_blocks_to_text(prompt: &[PromptContentBlock]) -> (s: String)
    ensures
        s@ == trim_spec(join_seq(text_blocks(prompt@), "\n"@)),
{
    let mut joined = String::new();
    let mut any = false;
    let mut i: usize = 0;
    while i < prompt.len()
        invariant
            i <= prompt.len(),
            any == (text_blocks(prompt@.take(i as int)).len() > 0),
            joined@ == join_seq(text_blocks(prompt@.take(i as int)), "\n"@),
        decreases prompt.len() - i,
    {
        let ghost before = text_blocks(prompt@.take(i as int));
        assert(prompt@.take(i + 1).drop_last() =~= prompt@.take(i as int));
        match &prompt[i] {
            PromptContentBlock::Text { text } => {
                if any {
                    push_str(&mut joined, "\n");
                }
                push_str(&mut joined, text.as_str());
                let ghost after = before.push(text@);
                assert(after.drop_last() =~= before);
                if !any {
                    assert(joined@ =~= join_seq(after, "\n"@));
                }
                any = true;
            },
            PromptContentBlock::Other => {},
        }
        i += 1;
    }
    assert(prompt@.take(prompt.len() as int) =~= prompt@);
    trim(joined.as_str())
}

/// The channel's name.
pub open spec fn acp_channel_name() -> Seq<char> {
    "acp"@
}

/// What a JSON-RPC request asks for.
#[derive(Debug, Clone, PartialEq, Eq)]
pub enum AcpRequest {
    Initialize,
    SessionNew,
    SessionPrompt,
    SessionCancel,
    /// Answer with this JSON-RPC error.
    Error { code: i64, message: String },
}

/// Dispatches a parsed request by its `jsonrpc` version and method.
pub fn dispatch(jsonrpc: &str, method: &str) -> (r: AcpRequest)
    ensures
        jsonrpc@ != "2.0"@ ==> (r matches AcpRequest::Error { code, message } && code == -32600
            && message@ == "Invalid Request: jsonrpc must be 2.0"@),
        jsonrpc@ == "2.0"@ ==> (if method@ == "initialize"@ {
            r == AcpRequest::Initialize
        } else if method@ == "session/new"@ {
            r == AcpRequest::SessionNew
        } else if method@ == "session/prompt"@ {
            r == AcpRequest::SessionPrompt
        } else if method@ == "session/cancel"@ {
            r == AcpRequest::SessionCancel
        } else {
            r matches AcpRequest::Error { code, message } && code == -32601 && message@ == "Method not found: "@
                + method@
        }),
{
    if !str_eq(jsonrpc, "2.0") {
        return AcpRequest::Error { code: -32600, message: to_owned_string("Invalid Request: jsonrpc must be 2.0") };
    }
    if str_eq(method, "initialize") {
        AcpRequest::Initialize
    } else if str_eq(method, "session/new") {
        AcpRequest::SessionNew
    } else if str_eq(method, "session/prompt") {
        AcpRequest::SessionPrompt
    } else if str_eq(method, "session/cancel") {
        AcpRequest::SessionCancel
    } else {
        let mut m = to_owned_string("Method not found: ");
        push_str(&mut m, method);
        AcpRequest::Error { code: -32601, message: m }
    }
}

/// A prompt waiting for the agent's reply: the JSON-RPC id to answer
/// (`None` answers with a null id) and whether it was cancelled.
#[derive(Debug)]
pub struct PendingPrompt {
    pub request_id: Option<serde_json::Value>,
    pub cancelled: bool,
}

/// Sessions created by `session/new`, and the pending prompt of each session.
pub struct AcpState {
    sessions: Vec<(String, ())>,
    pending: Vec<(String, PendingPrompt)>,
}

/// What the state holds.
pub struct AcpStateView {
    pub sessions: Set<Seq<char>>,
    pub pending: Map<Seq<char>, PendingPrompt>,
}

impl View for AcpState {
    type V = AcpStateView;

    closed spec fn view(&self) -> AcpStateView {
        AcpStateView { sessions: table_of(self.sessions@).dom(), pending: table_of(self.pending@) }
    }
}

/// What a `session/prompt` comes to.
#[derive(Debug)]
pub enum PromptOutcome {
    /// Answer with this JSON-RPC error.
    Error { code: i64, message: String },
    /// Publish this text from `acp_client` in chat `session_id`; the prompt is pending.
    Publish { session_id: String, content: String },
}

/// The answer to a pending prompt, once the agent replied.
#[derive(Debug)]
pub struct AcpReply {
    pub session_id: String,
    /// The reply text, sent as a `session/update` message chunk.
    pub content: String,
    /// `end_turn`, or `cancelled` when the prompt was cancelled.
    pub stop_reason: String,
    pub request_id: Option<serde_json::Value>,
}

/// The state after a cancel: the session's pending prompt, if any, is marked cancelled.
pub open spec fn after_cancel(v: AcpStateView, session_id: Seq<char>) -> Map<Seq<char>, bool> {
    v.pending.map_values(|p: PendingPrompt| p.cancelled).union_prefer_right(
        if v.pending.contains_key(session_id) {
            map![session_id => true]
        } else {
            Map::empty()
        },
    )
}

impl AcpState {
    /// Each session and each pending prompt occurs once.
    pub closed spec fn wf(&self) -> bool {
        names_distinct(self.sessions@) && names_distinct(self.pending@)
    }

    /// No sessions, nothing pending.
    pub fn new() -> (s: Self)
        ensures
            s.wf(),
            s@.sessions == Set::<Seq<char>>::empty(),
            s@.pending == Map::<Seq<char>, PendingPrompt>::empty(),
    {
        let s = AcpState { sessions: Vec::new(), pending: Vec::new() };
        assert(s@.sessions =~= Set::<Seq<char>>::empty());
        s
    }

    /// Records the session `session_id`.
    pub fn add_session(&mut self, session_id: String)
        requires
            old(self).wf(),
        ensures
            final(self).wf(),
            final(self)@.sessions == old(self)@.sessions.insert(session_id@),
            final(self)@.pending == old(self)@.pending,
    {
        let ghost before = table_of(self.sessions@);
        let ghost sid = session_id@;
        put_name(&mut self.sessions, session_id, ());
        assert(table_of(self.sessions@).dom() =~= before.dom().insert(sid));
    }

    /// `session/new`: a fresh session `acp_<uuid>` (32 hex digits), recorded.
    pub fn new_session(&mut self) -> (id: String)
        requires
            old(self).wf(),
        ensures
            final(self).wf(),
            final(self)@.sessions == old(self)@.sessions.insert(id@),
            final(self)@.pending == old(self)@.pending,
            is_prefix("acp_"@, id@),
            id@.len() == 36,
    {
        let mut id = to_owned_string("acp_");
        let u = random_uuid_simple();
        push_str(&mut id, u.as_str());
        proof {
            reveal_strlit("acp_");
            assert(id@.take(4) =~= "acp_"@);
        }
        self.add_session(id.clone());
        id
    }

    /// `session/prompt` with JSON-RPC id `request_id` for `session_id`: an
    /// error for an empty prompt (checked first) or an unknown session; else
    /// the prompt becomes pending (replacing an earlier one) and its text is
    /// to be published.
    pub fn prompt(
        &mut self,
        request_id: Option<serde_json::Value>,
        session_id: &str,
        blocks: &[PromptContentBlock],
    ) -> (r: PromptOutcome)
        requires
            old(self).wf(),
        ensures
            final(self).wf(),
            final(self)@.sessions == old(self)@.sessions,
            ({
                let text = trim_spec(join_seq(text_blocks(blocks@), "\n"@));
                if text.len() == 0 {
                    r matches PromptOutcome::Error { code, message } && code == -32602 && message@
                        == "session/prompt: prompt content is empty"@ && final(self)@.pending == old(self)@.pending
                } else if !old(self)@.sessions.contains(session_id@) {
                    r matches PromptOutcome::Error { code, message } && code == -32602 && message@
                        == "ACP: unknown session "@ + session_id@ && final(self)@.pending == old(self)@.pending
                } else {
                    r matches PromptOutcome::Publish { session_id: s, content } && s@ == session_id@ && content@
                        == text && final(self)@.pending == old(self)@.pending.insert(
                        session_id@,
                        PendingPrompt { request_id, cancelled: false },
                    )
                }
            }),
    {
        let content = prompt_blocks_to_text(blocks);
        if content.as_str().is_empty() {
            return PromptOutcome::Error {
                code: -32602,
                message: to_owned_string("session/prompt: prompt content is empty"),
            };
        }
        match find_name(&self.sessions, session_id) {
            None => {
                proof {
                    lemma_table_absent(self.sessions@, session_id@);
                }
                let mut m = to_owned_string("ACP: unknown session ");
                push_str(&mut m, session_id);
                PromptOutcome::Error { code: -32602, message: m }
            },
            Some(i) => {
                proof {
                    lemma_table_at(self.sessions@, i as int);
                }
                put_name(&mut self.pending, to_owned_string(session_id), PendingPrompt { request_id, cancelled: false });
                PromptOutcome::Publish { session_id: to_owned_string(session_id), content }
            },
        }
    }

    /// Forgets the pending prompt of `session_id` (its text could not be published).
    pub fn abandon_prompt(&mut self, session_id: &str)
        requires
            old(self).wf(),
        ensures
            final(self).wf(),
            final(self)@.sessions == old(self)@.sessions,
            final(self)@.pending == old(self)@.pending.remove(session_id@),
    {
        let _ = take_name(&mut self.pending, session_id);
    }

    /// `session/cancel`: marks the pending prompt of `session_id`, if any, as cancelled.
    pub fn cancel(&mut self, session_id: &str)
        requires
            old(self).wf(),
        ensures
            final(self).wf(),
            final(self)@.sessions == old(self)@.sessions,
            final(self)@.pending.dom() == old(self)@.pending.dom(),
            forall|k: Seq<char>| #[trigger] final(self)@.pending.contains_key(k) ==> final(self)@.pending[k].request_id
                == old(self)@.pending[k].request_id,
            final(self)@.pending.map_values(|p: PendingPrompt| p.cancelled) == after_cancel(old(self)@, session_id@),
    {
        let ghost before = table_of(self.pending@);
        match take_name(&mut self.pending, session_id) {
            Some(p) => {
                put_name(&mut self.pending, to_owned_string(session_id), PendingPrompt { request_id: p.request_id, cancelled: true });
                proof {
                    assert(table_of(self.pending@).dom() =~= before.dom());
                    assert(table_of(self.pending@).map_values(|p: PendingPrompt| p.cancelled) =~= after_cancel(
                        AcpStateView { sessions: old(self)@.sessions, pending: before },
                        session_id@,
                    ));
                }
            },
            None => {
                proof {
                    assert(before.remove(session_id@) =~= before);
                    assert(table_of(self.pending@).map_values(|p: PendingPrompt| p.cancelled) =~= after_cancel(
                        AcpStateView { sessions: old(self)@.sessions, pending: before },
                        session_id@,
                    ));
                }
            },
        }
    }

    /// The agent's reply `msg`: for the ACP channel and a session with a
    /// pending prompt, that prompt is answered (and no longer pending); any
    /// other message is ignored.
    pub fn on_outbound(&mut self, msg: &OutboundMessage) -> (r: Option<AcpReply>)
        requires
            old(self).wf(),
        ensures
            final(self).wf(),
            final(self)@.sessions == old(self)@.sessions,
            msg.channel@ != acp_channel_name() ==> (r is None && final(self)@.pending == old(self)@.pending),
            msg.channel@ == acp_channel_name() ==> final(self)@.pending == old(self)@.pending.remove(msg.chat_id@),
            msg.channel@ == acp_channel_name() && !old(self)@.pending.contains_key(msg.chat_id@) ==> r is None,
            msg.channel@ == acp_channel_name() && old(self)@.pending.contains_key(msg.chat_id@) ==> (r matches Some(
                reply,
            ) && reply.session_id@ == msg.chat_id@ && reply.content@ == msg.content@ && reply.request_id
                == old(self)@.pending[msg.chat_id@].request_id && reply.stop_reason@ == (if old(
                self,
            )@.pending[msg.chat_id@].cancelled {
                "cancelled"@
            } else {
                "end_turn"@
            })),
    {
        if !str_eq(msg.channel.as_str(), "acp") {
            return None;
        }
        match take_name(&mut self.pending, msg.chat_id.as_str()) {
            None => None,
            Some(p) => {
                let stop_reason = if p.cancelled {
                    to_owned_string("cancelled")
                } else {
                    to_owned_string("end_turn")
                };
                Some(
                    AcpReply {
                        session_id: msg.chat_id.clone(),
                        content: msg.content.clone(),
                        stop_reason,
                        request_id: p.request_id,
                    },
                )
            },
        }
    }
}

/// A prompt that was cancelled before the agent replied is answered with
/// `cancelled`: after a cancel of a session with a pending prompt, the
/// pending prompt is marked cancelled.
pub proof fn lemma_cancel_marks_pending(v: AcpStateView, session_id: Seq<char>)
    requires
        v.pending.contains_key(session_id),
    ensures
        after_cancel(v, session_id).contains_key(session_id),
        after_cancel(v, session_id)[session_id],
        forall|k: Seq<char>| k != session_id && #[trigger] v.pending.contains_key(k) ==> after_cancel(v, session_id)[k]
            == v.pending[k].cancelled,
{
}

/// What `str::parse::<i64>` accepts: an optional `+` or `-`, then at least
/// one digit, with a value in range.
pub open spec fn parse_i64_spec(s: Seq<char>) -> Option<i64> {
    let neg = s.len() > 0 && s[0] == '-';
    let body = if s.len() > 0 && (s[0] == '+' || s[0] == '-') { s.drop_first() } else { s };
    if body.len() == 0 {
        None
    } else {
        match digits_value(body) {
            Some(v) => if neg && v <= 0x8000_0000_0000_0000 {
                Some((-v) as i64)
            } else if !neg && v <= 0x7fff_ffff_ffff_ffff {
                Some(v as i64)
            } else {
                None
            },
            None => None,
        }
    }
}

/// Parses a decimal integer the way `str::parse::<i64>` does.
pub fn parse_i64(s: &str) -> (r: Option<i64>)
    ensures
        r == parse_i64_spec(s@),
{
    let cs = crate::text::chars_of(s);
    let neg = cs.len() > 0 && cs[0] == '-';
    let start: usize = if cs.len() > 0 && (cs[0] == '+' || cs[0] == '-') { 1 } else { 0 };
    let ghost body = if cs@.len() > 0 && (cs@[0] == '+' || cs@[0] == '-') { cs@.drop_first() } else { cs@ };
    assert(body =~= cs@.skip(start as int));
    if start == cs.len() {
        return None;
    }
    let limit: u64 = if neg { 0x8000_0000_0000_0000 } else { 0x7fff_ffff_ffff_ffff };
    let mut v: u64 = 0;
    let mut i = start;
    while i < cs.len()
        invariant
            cs@ == s@,
            start <= i <= cs@.len(),
            start < cs@.len(),
            body == cs@.skip(start as int),
            digits_value(body.take(i - start)) == Some(v as nat),
            body == (if cs@.len() > 0 && (cs@[0] == '+' || cs@[0] == '-') { cs@.drop_first() } else { cs@ }),
            neg == (cs@.len() > 0 && cs@[0] == '-'),
            limit == (if neg { 0x8000_0000_0000_0000u64 } else { 0x7fff_ffff_ffff_ffffu64 }),
            v <= limit,
        decreases cs@.len() - i,
    {
        let c = cs[i];
        assert(body.take(i - start + 1).drop_last() =~= body.take(i - start));
        assert(body.take(i - start + 1).last() == c);
        if !('0' <= c && c <= '9') {
            assert(digits_value(body.take(i - start + 1)) is None);
            proof {
                if digits_value(body) is Some {
                    assert(body.take(body.len() as int) =~= body);
                    lemma_digits_mono(body, i - start + 1, body.len() as int);
                }
            }
            return None;
        }
        let d = (c as u64) - ('0' as u64);
        assert(digit_value(c) == Some(d as nat));
        if v > (limit - d) / 10 {
            proof {
                assert(10 * v + d > limit) by (nonlinear_arith)
                    requires v > (limit - d) / 10, d <= 9, d <= limit;
                if digits_value(body) is Some {
                    assert(body.take(body.len() as int) =~= body);
                    lemma_digits_mono(body, i - start + 1, body.len() as int);
                }
            }
            return None;
        }
        assert(10 * v + d <= limit) by (nonlinear_arith)
            requires v <= (limit - d) / 10, d <= 9, d <= limit;
        v = 10 * v + d;
        i += 1;
    }
    assert(body.take(cs@.len() - start) =~= body);
    if neg {
        if v == 0x8000_0000_0000_0000 {
            Some(i64::MIN)
        } else {
            Some(-(v as i64))
        }
    } else {
        Some(v as i64)
    }
}

/// The protocol version announced by `initialize`: the configured value
/// when it parses as an integer, else 1.
pub fn protocol_version(configured: &str) -> (v: i64)
    ensures
        v == (match parse_i64_spec(configured@) {
            Some(n) => n,
            None => 1,
        }),
{
    match parse_i64(configured) {
        Some(n) => n,
        None => 1,
    }
}

} // verus!
