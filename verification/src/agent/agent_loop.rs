//! The agent loop's bookkeeping around each run: messages queued while a
//! session is busy, the reply sent for each way a run ends, and the token
//! usage a run added.
use vstd::prelude::*;

use crate::bus::{meta_get, propagate_routing_metadata, InboundMessage, OutboundMessage};
use crate::agent::core_loop::LegacyTerminal;
use crate::agent::pipeline::Pipeline;
use crate::config::{Config, MessageQueueMode};
use crate::error::{error_text, ZeptoError};
use crate::keyed::{names_distinct, put_name, table_of, take_name};
use crate::text::{decimal, push_str, to_owned_string, u64_to_decimal};

verus! {

/// Messages that arrived while their session was busy, by session key.
pub struct PendingMessages {
    queues: Vec<(String, Vec<InboundMessage>)>,
}

impl View for PendingMessages {
    type V = Map<Seq<char>, Seq<InboundMessage>>;

    closed spec fn view(&self) -> Map<Seq<char>, Seq<InboundMessage>> {
        table_of(self.queues@).map_values(|v: Vec<InboundMessage>| v@)
    }
}

impl PendingMessages {
    /// Each session key occurs once.
    pub closed spec fn wf(&self) -> bool {
        names_distinct(self.queues@)
    }

    /// Nothing queued.
    pub fn new() -> (p: Self)
        ensures
            p.wf(),
            p@ == Map::<Seq<char>, Seq<InboundMessage>>::empty(),
    {
        let p = PendingMessages { queues: Vec::new() };
        assert(p@ =~= Map::<Seq<char>, Seq<InboundMessage>>::empty());
        p
    }

    /// Queues `msg` behind the other messages of its session.
    pub fn queue(&mut self, msg: InboundMessage)
        requires
            old(self).wf(),
        ensures
            final(self).wf(),
            final(self)@ == old(self)@.insert(
                msg.session_key@,
                if old(self)@.contains_key(msg.session_key@) {
                    old(self)@[msg.session_key@].push(msg)
                } else {
                    seq![msg]
                },
            ),
    {
        let ghost before = table_of(self.queues@);
        let key = msg.session_key.clone();
        let ghost m = msg;
        let mut q = match take_name(&mut self.queues, key.as_str()) {
            Some(q) => q,
            None => Vec::new(),
        };
        let ghost q0 = q@;
        q.push(msg);
        let ghost qv = q;
        put_name(&mut self.queues, key, q);
        proof {
            assert(before.remove(m.session_key@).insert(m.session_key@, qv) =~= before.insert(m.session_key@, qv));
            if before.contains_key(m.session_key@) {
                assert(q0 == before[m.session_key@]@);
            } else {
                assert(q0 =~= Seq::<InboundMessage>::empty());
            }
            assert(qv@ =~= (if before.contains_key(m.session_key@) {
                before[m.session_key@]@.push(m)
            } else {
                seq![m]
            }));
            assert(before.insert(m.session_key@, qv).map_values(|v: Vec<InboundMessage>| v@) =~= before.map_values(
                |v: Vec<InboundMessage>| v@,
            ).insert(m.session_key@, qv@));
        }
    }

    /// Takes the messages queued for `session_key`, in arrival order.
    pub fn take(&mut self, session_key: &str) -> (r: Vec<InboundMessage>)
        requires
            old(self).wf(),
        ensures
            final(self).wf(),
            final(self)@ == old(self)@.remove(session_key@),
            r@ == (if old(self)@.contains_key(session_key@) {
                old(self)@[session_key@]
            } else {
                Seq::empty()
            }),
    {
        let ghost before = table_of(self.queues@);
        let r = match take_name(&mut self.queues, session_key) {
            Some(q) => q,
            None => Vec::new(),
        };
        proof {
            assert(before.remove(session_key@).map_values(|v: Vec<InboundMessage>| v@) =~= before.map_values(
                |v: Vec<InboundMessage>| v@,
            ).remove(session_key@));
        }
        r
    }
}

/// Messages queued while a session was busy are handed back in the order
/// they arrived: queueing `a` then `b` for a session with nothing queued and
/// then taking its queue gives `[a, b]`.
pub proof fn lemma_queue_is_fifo(
    m0: Map<Seq<char>, Seq<InboundMessage>>,
    a: InboundMessage,
    b: InboundMessage,
)
    requires
        a.session_key@ == b.session_key@,
        !m0.contains_key(a.session_key@),
    ensures
        ({
            let k = a.session_key@;
            let m1 = m0.insert(k, seq![a]);
            let m2 = m1.insert(k, m1[k].push(b));
            m2[k] == seq![a, b]
        }),
{
    let k = a.session_key@;
    let m1 = m0.insert(k, seq![a]);
    assert(m1[k].push(b) =~= seq![a, b]);
}

/// The header of a combined queued message.
pub open spec fn queued_header() -> Seq<char> {
    "[Queued messages while I was busy]\n\n"@
}

/// The queued contents as numbered lines `1. <content>`, `2. <content>`, ...
/// separated by newlines.
pub open spec fn numbered_lines(contents: Seq<Seq<char>>) -> Seq<char>
    decreases contents.len(),
{
    if contents.len() == 0 {
        Seq::empty()
    } else {
        let line = decimal(contents.len()) + ". "@ + contents.last();
        if contents.len() == 1 {
            line
        } else {
            numbered_lines(contents.drop_last()) + "\n"@ + line
        }
    }
}

/// What to do with the messages queued for a session once its run is over.
#[derive(Debug)]
pub enum QueuedReplay {
    /// Nothing was queued.
    Nothing,
    /// Publish one message with this combined text, from the finished message's sender and chat.
    Combined(String),
    /// Publish these messages again, in order.
    OneByOne(Vec<InboundMessage>),
}

/// The queued messages' contents.
pub open spec fn contents_of(pending: Seq<InboundMessage>) -> Seq<Seq<char>> {
    pending.map_values(|m: InboundMessage| m.content@)
}

/// The replay of `pending` (in arrival order) under the queue mode.
pub fn replay_queued(mode: MessageQueueMode, pending: Vec<InboundMessage>) -> (r: QueuedReplay)
    requires
        pending@.len() < u64::MAX,
    ensures
        pending@.len() == 0 ==> r is Nothing,
        pending@.len() > 0 && mode == MessageQueueMode::Collect ==> (r matches QueuedReplay::Combined(s) && s@
            == queued_header() + numbered_lines(contents_of(pending@))),
        pending@.len() > 0 && mode == MessageQueueMode::Followup ==> (r matches QueuedReplay::OneByOne(v) && v@
            == pending@),
{
    if pending.len() == 0 {
        return QueuedReplay::Nothing;
    }
    match mode {
        MessageQueueMode::Followup => QueuedReplay::OneByOne(pending),
        MessageQueueMode::Collect => {
            let ghost cs = contents_of(pending@);
            let mut s = to_owned_string("[Queued messages while I was busy]\n\n");
            let mut i: usize = 0;
            while i < pending.len()
                invariant
                    cs == contents_of(pending@),
                    pending@.len() < u64::MAX,
                    i <= pending@.len(),
                    s@ == queued_header() + numbered_lines(cs.take(i as int)),
                decreases pending@.len() - i,
            {
                if i > 0 {
                    push_str(&mut s, "\n");
                }
                let n = u64_to_decimal((i + 1) as u64);
                push_str(&mut s, n.as_str());
                push_str(&mut s, ". ");
                push_str(&mut s, pending[i].content.as_str());
                proof {
                    let t = cs.take(i + 1);
                    assert(t.drop_last() =~= cs.take(i as int));
                    assert(t.last() == pending@[i as int].content@);
                    assert(t.len() == i + 1);
                }
                i += 1;
            }
            assert(cs.take(i as int) =~= cs);
            QueuedReplay::Combined(s)
        },
    }
}

/// How an agent run ended.
#[derive(Debug)]
pub enum RunOutcome {
    /// The agent replied.
    Replied(String),
    /// The run failed.
    Failed(ZeptoError),
    /// The run exceeded the time limit.
    TimedOut,
}

/// The message sent to the chat for a run's outcome, and whether the run
/// completed: the reply; `Error: <error>`; or a time-out notice naming the limit.
pub fn outcome_message(outcome: RunOutcome, timeout_secs: u64) -> (r: (String, bool))
    ensures
        match outcome {
            RunOutcome::Replied(s) => r.0@ == s@ && r.1,
            RunOutcome::Failed(e) => r.0@ == "Error: "@ + error_text(e) && !r.1,
            RunOutcome::TimedOut => r.0@ == "Agent run timed out after "@ + decimal(timeout_secs as nat)
                + "s. Try a simpler request."@ && !r.1,
        },
{
    match outcome {
        RunOutcome::Replied(s) => (s, true),
        RunOutcome::Failed(e) => {
            let mut m = to_owned_string("Error: ");
            let t = e.to_string();
            push_str(&mut m, t.as_str());
            (m, false)
        },
        RunOutcome::TimedOut => {
            let mut m = to_owned_string("Agent run timed out after ");
            let n = u64_to_decimal(timeout_secs);
            push_str(&mut m, n.as_str());
            push_str(&mut m, "s. Try a simpler request.");
            (m, false)
        },
    }
}

/// The (input, output) tokens a run added, from the counters before and
/// after it; zero when the counters are not kept.
pub fn token_delta(before: Option<(u64, u64)>, after: Option<(u64, u64)>) -> (r: (u64, u64))
    ensures
        match (before, after) {
            (Some((i0, o0)), Some((i1, o1))) => r == (
                if i1 >= i0 { (i1 - i0) as u64 } else { 0u64 },
                if o1 >= o0 { (o1 - o0) as u64 } else { 0u64 },
            ),
            _ => r == (0u64, 0u64),
        },
{
    match (before, after) {
        (Some((i0, o0)), Some((i1, o1))) => (i1.saturating_sub(i0), o1.saturating_sub(o0)),
        _ => (0, 0),
    }
}

/// The text sent for a run's outcome: the reply, `Error: <error>`, or the
/// time-out notice naming the limit.
pub open spec fn outcome_text(outcome: RunOutcome, timeout_secs: u64) -> Seq<char> {
    match outcome {
        RunOutcome::Replied(s) => s@,
        RunOutcome::Failed(e) => "Error: "@ + error_text(e),
        RunOutcome::TimedOut => "Agent run timed out after "@ + decimal(timeout_secs as nat)
            + "s. Try a simpler request."@,
    }
}

/// What the agent loop does once the run for an inbound message is over.
#[derive(Debug)]
pub struct InboundFinish {
    /// The one message sent back to the inbound message's chat.
    pub reply: OutboundMessage,
    /// Whether the run completed (it replied); a failed or timed-out run
    /// counts as an error in the usage metrics.
    pub completed: bool,
    /// What becomes of the messages queued for the session meanwhile.
    pub replay: QueuedReplay,
}

/// `reply` is the single answer to `msg` with text `text`: sent to the
/// message's channel and chat, not threaded under a message, carrying the
/// inbound `telegram_thread_id` routing entry and no other metadata.
pub open spec fn is_reply_to(reply: OutboundMessage, msg: InboundMessage, text: Seq<char>) -> bool {
    &&& reply.channel@ == msg.channel@
    &&& reply.chat_id@ == msg.chat_id@
    &&& reply.content@ == text
    &&& reply.reply_to is None
    &&& meta_get(reply.metadata@, "telegram_thread_id"@) == meta_get(msg.metadata@, "telegram_thread_id"@)
    &&& forall|k: Seq<char>| k != "telegram_thread_id"@ ==> meta_get(reply.metadata@, k) is None
}

/// The end of the processing of an inbound message: exactly one reply to its
/// chat (the agent's reply, the error text, or the time-out notice), whether
/// the run completed, and the replay of the messages queued for its session
/// while it ran (`pending`, in arrival order) under the queue mode.
pub fn finish_inbound(
    msg: &InboundMessage,
    outcome: RunOutcome,
    timeout_secs: u64,
    mode: MessageQueueMode,
    pending: Vec<InboundMessage>,
) -> (r: InboundFinish)
    requires
        pending@.len() < u64::MAX,
    ensures
        is_reply_to(r.reply, *msg, outcome_text(outcome, timeout_secs)),
        r.completed == (outcome is Replied),
        pending@.len() == 0 ==> r.replay is Nothing,
        pending@.len() > 0 && mode == MessageQueueMode::Collect ==> (r.replay matches QueuedReplay::Combined(
            s,
        ) && s@ == queued_header() + numbered_lines(contents_of(pending@))),
        pending@.len() > 0 && mode == MessageQueueMode::Followup ==> (r.replay matches QueuedReplay::OneByOne(
            v,
        ) && v@ == pending@),
{
    let (text, completed) = outcome_message(outcome, timeout_secs);
    let reply = reply_to(msg, text);
    let replay = replay_queued(mode, pending);
    InboundFinish { reply, completed, replay }
}

/// The single message sent back to `msg`'s chat with text `text`.
fn reply_to(msg: &InboundMessage, text: String) -> (reply: OutboundMessage)
    ensures
        is_reply_to(reply, *msg, text@),
{
    let mut reply = OutboundMessage {
        channel: msg.channel.clone(),
        chat_id: msg.chat_id.clone(),
        content: text,
        reply_to: None,
        metadata: Vec::new(),
    };
    let ghost empty = reply.metadata@;
    proof {
        assert forall|k: Seq<char>| meta_get(empty, k) is None by {
            reveal_with_fuel(crate::bus::meta_index, 2);
        }
    }
    propagate_routing_metadata(&mut reply, msg);
    reply
}

/// Whether a start of the agent loop is accepted: only when it is not
/// already running.
pub open spec fn start_accepted(running: bool) -> bool {
    !running
}

/// The running flag after a start: set, whether the start was accepted or
/// the loop already ran.
pub open spec fn running_after_start(running: bool) -> bool {
    true
}

/// The running flag after the loop's run ends or the loop is stopped.
pub open spec fn running_after_end(running: bool) -> bool {
    false
}

/// Marks the agent loop running; starting a loop that already runs is a
/// configuration error (it stays running).
pub fn begin_run(running: &mut bool) -> (r: Result<(), ZeptoError>)
    ensures
        *final(running) == running_after_start(*old(running)),
        (r is Ok) == start_accepted(*old(running)),
        *old(running) ==> (r matches Err(ZeptoError::Config(m)) && m@ == "Agent loop already running"@),
{
    if *running {
        return Err(ZeptoError::Config(to_owned_string("Agent loop already running")));
    }
    *running = true;
    Ok(())
}

/// Marks the agent loop stopped: when its run ends, and when it is asked to
/// stop.
pub fn end_run(running: &mut bool)
    ensures
        *final(running) == running_after_end(*old(running)),
{
    *running = false;
}

/// A loop that runs refuses a second start, and once its run has ended (or
/// it was stopped) a start is accepted again.
pub proof fn lemma_restart_after_stop(running: bool)
    ensures
        !start_accepted(running_after_start(running)),
        start_accepted(running_after_end(running_after_start(running))),
{
}

/// What wakes the agent loop.
#[derive(Debug)]
pub enum LoopEvent {
    /// The shutdown signal changed to this value.
    Shutdown(bool),
    /// A message arrived on the inbound channel.
    Inbound(InboundMessage),
    /// The inbound channel closed.
    ChannelClosed,
}

/// What the agent loop does about an event.
#[derive(Debug)]
pub enum LoopAction {
    /// Leave the loop.
    Stop,
    /// Nothing; wait for the next event.
    Continue,
    /// Send this refusal to an unpaired device and take the next event.
    Reject(OutboundMessage),
    /// The message was queued behind its busy session.
    Queued,
    /// Process this message now.
    Process(InboundMessage),
}

/// The reply to a message from a device that is not paired.
pub open spec fn pairing_rejection_text() -> Seq<char> {
    "Access denied: device not paired. Use `zeptoclaw pair new` to generate a pairing code."@
}

/// One turn of the agent loop. A shutdown signal that turned on, or a closed
/// inbound channel, stops the loop; a signal that turned off changes nothing.
/// A message from a device that fails the pairing check (`paired` is false;
/// it is true when pairing is off) is refused with a reply to its chat and
/// nothing is queued; otherwise the message is queued when its session is
/// busy, and processed now when it is not.
pub fn loop_step(pending: &mut PendingMessages, event: LoopEvent, paired: bool, session_busy: bool) -> (a: LoopAction)
    requires
        old(pending).wf(),
    ensures
        final(pending).wf(),
        match event {
            LoopEvent::Shutdown(on) => (if on { a is Stop } else { a is Continue }) && final(pending)@ == old(pending)@,
            LoopEvent::ChannelClosed => a is Stop && final(pending)@ == old(pending)@,
            LoopEvent::Inbound(msg) => if !paired {
                (a matches LoopAction::Reject(reply) && is_reply_to(reply, msg, pairing_rejection_text()))
                    && final(pending)@ == old(pending)@
            } else if session_busy {
                a is Queued && final(pending)@ == old(pending)@.insert(
                    msg.session_key@,
                    if old(pending)@.contains_key(msg.session_key@) {
                        old(pending)@[msg.session_key@].push(msg)
                    } else {
                        seq![msg]
                    },
                )
            } else {
                a == LoopAction::Process(msg) && final(pending)@ == old(pending)@
            },
        },
{
    match event {
        LoopEvent::Shutdown(on) => if on {
            LoopAction::Stop
        } else {
            LoopAction::Continue
        },
        LoopEvent::ChannelClosed => LoopAction::Stop,
        LoopEvent::Inbound(msg) => {
            if !paired {
                let text = to_owned_string(
                    "Access denied: device not paired. Use `zeptoclaw pair new` to generate a pairing code.",
                );
                LoopAction::Reject(reply_to(&msg, text))
            } else {
                match queue_or_process(pending, session_busy, msg) {
                    Some(m) => LoopAction::Process(m),
                    None => LoopAction::Queued,
                }
            }
        },
    }
}

/// The fast path of the loop: a message whose session is busy is queued
/// behind that session's other messages (`None`); otherwise it is handed back
/// to be processed now and nothing is queued.
pub fn queue_or_process(pending: &mut PendingMessages, session_busy: bool, msg: InboundMessage) -> (r: Option<
    InboundMessage,
>)
    requires
        old(pending).wf(),
    ensures
        final(pending).wf(),
        session_busy ==> r is None && final(pending)@ == old(pending)@.insert(
            msg.session_key@,
            if old(pending)@.contains_key(msg.session_key@) {
                old(pending)@[msg.session_key@].push(msg)
            } else {
                seq![msg]
            },
        ),
        !session_busy ==> r == Some(msg) && final(pending)@ == old(pending)@,
{
    if session_busy {
        pending.queue(msg);
        None
    } else {
        Some(msg)
    }
}

/// The stages of the agent's middleware pipeline.
#[derive(Debug, Clone, Copy, PartialEq, Eq, Structural)]
pub enum AgentStage {
    SessionSave,
    Metrics,
    Feedback,
    InjectionScan,
    ProviderResolution,
    Session,
    Compaction,
    MemoryInjection,
    ContextBuild,
    TokenBudget,
    Cache,
}

/// The agent's stages, outermost first: session saving, metrics, feedback,
/// the injection scan (only when `scan`), provider resolution, the session,
/// compaction, memory injection, context building, the token budget, and the
/// response cache innermost (only when `cache`).
pub open spec fn agent_stages(scan: bool, cache: bool) -> Seq<AgentStage> {
    seq![AgentStage::SessionSave, AgentStage::Metrics, AgentStage::Feedback] + (if scan {
        seq![AgentStage::InjectionScan]
    } else {
        Seq::empty()
    }) + seq![
        AgentStage::ProviderResolution,
        AgentStage::Session,
        AgentStage::Compaction,
        AgentStage::MemoryInjection,
        AgentStage::ContextBuild,
        AgentStage::TokenBudget,
    ] + (if cache {
        seq![AgentStage::Cache]
    } else {
        Seq::empty()
    })
}

/// The agent's pipeline: the injection scan only when the safety layer and its
/// injection check are both on, the cache only when a response cache exists.
pub fn build_pipeline_static(config: &Config, has_cache: bool) -> (p: Pipeline<AgentStage, LegacyTerminal>)
    ensures
        p.stages() == agent_stages(config.safety.enabled && config.safety.injection_check_enabled, has_cache),
{
    let scan = config.safety.enabled && config.safety.injection_check_enabled;
    let b = Pipeline::<AgentStage, ()>::builder()
        .add(AgentStage::SessionSave)
        .add(AgentStage::Metrics)
        .add(AgentStage::Feedback)
        .add_if(scan, AgentStage::InjectionScan)
        .add(AgentStage::ProviderResolution)
        .add(AgentStage::Session)
        .add(AgentStage::Compaction)
        .add(AgentStage::MemoryInjection)
        .add(AgentStage::ContextBuild)
        .add(AgentStage::TokenBudget)
        .add_if(has_cache, AgentStage::Cache);
    let p = b.build(LegacyTerminal::new());
    assert(p.stages() =~= agent_stages(scan, has_cache));
    p
}

} // verus!
