//! OpenAI-compatible routes: request checks, the model listing, and the
//! server-sent event stream of a streaming completion.
use vstd::prelude::*;

use crate::api::openai_types::{
    chunk_from_stream_event, done_chunk_with_reason, first_chunk, is_plain_chunk, is_tool_calls_chunk,
    messages_from_openai, role_named, supports_tool_choice, tool_choice_supported, ChatCompletionChunk,
    ChatMessage, ModelObject, ModelsResponse, ToolChoice, content_or_empty, is_converted_message,
    unsupported_role_error,
};
use crate::providers::StreamEvent;
use crate::session::Message;
use crate::text::{push_str, to_owned_string};

verus! {

/// Why a completion request is refused: the HTTP status and the message.
#[derive(Debug, Clone, PartialEq, Eq)]
pub struct RequestError {
    pub status: u16,
    pub message: String,
}

/// The checks of a completion request, in order: a provider must be
/// configured (503), every message role must be known (400, with the role
/// error), and the tool choice must be supported (400).
pub fn check_completion_request(
    has_provider: bool,
    messages: &[ChatMessage],
    tool_choice: &ToolChoice,
) -> (r: Result<Vec<Message>, RequestError>)
    ensures
        !has_provider ==> (r matches Err(e) && e.status == 503 && e.message@ == "No LLM provider configured"@),
        has_provider && (exists|i: int| 0 <= i < messages@.len() && #[trigger] role_named(messages@[i].role@) is None)
            ==> (r matches Err(e) && e.status == 400),
        has_provider && (forall|i: int| 0 <= i < messages@.len() ==> #[trigger] role_named(messages@[i].role@) is Some)
            && !tool_choice_supported(*tool_choice) ==> (r matches Err(e) && e.status == 400 && e.message@
            == "unsupported tool_choice: only omitted, null, or \"auto\" are accepted"@),
        has_provider && (forall|i: int| 0 <= i < messages@.len() ==> #[trigger] role_named(messages@[i].role@) is Some)
            && tool_choice_supported(*tool_choice) ==> (r matches Ok(v) && v@.len() == messages@.len()),
        r matches Ok(v) ==> accepted_conversation(messages@, v@),
        has_provider ==> match messages_from_openai_spec(messages@) {
            Some(bad) => r matches Err(e) && e.status == 400 && e.message@ == unsupported_role_error(bad),
            None => true,
        },
{
    if !has_provider {
        return Err(RequestError { status: 503, message: to_owned_string("No LLM provider configured") });
    }
    let msgs = match messages_from_openai(messages) {
        Ok(m) => m,
        Err(e) => {
            proof {
                let i = choose|i: int|
                    0 <= i < messages@.len() && (forall|j: int| 0 <= j < i ==> (#[trigger] role_named(messages@[j].role@)) is Some)
                        && role_named(messages@[i].role@) is None && e@ == unsupported_role_error(messages@[i].role@);
                lemma_first_unknown_role(messages@, i);
            }
            return Err(RequestError { status: 400, message: e });
        },
    };
    proof {
        lemma_first_unknown_role(messages@, messages@.len() as int);
    }
    if !supports_tool_choice(tool_choice) {
        return Err(
            RequestError {
                status: 400,
                message: to_owned_string(
                    "unsupported tool_choice: only omitted, null, or \"auto\" are accepted",
                ),
            },
        );
    }
    Ok(msgs)
}

/// The role of the first message whose role is unknown, if any.
pub open spec fn messages_from_openai_spec(messages: Seq<ChatMessage>) -> Option<Seq<char>>
    decreases messages.len(),
{
    if messages.len() == 0 {
        None
    } else if role_named(messages[0].role@) is None {
        Some(messages[0].role@)
    } else {
        messages_from_openai_spec(messages.drop_first())
    }
}

proof fn lemma_first_unknown_role(messages: Seq<ChatMessage>, i: int)
    requires
        0 <= i <= messages.len(),
        forall|j: int| 0 <= j < i ==> (#[trigger] role_named(messages[j].role@)) is Some,
        i < messages.len() ==> role_named(messages[i].role@) is None,
    ensures
        messages_from_openai_spec(messages) == if i < messages.len() {
            Some(messages[i].role@)
        } else {
            None::<Seq<char>>
        },
    decreases messages.len(),
{
    if messages.len() > 0 && i > 0 {
        let rest = messages.drop_first();
        assert(role_named(messages[0].role@) is Some);
        assert forall|j: int| 0 <= j < i - 1 implies (#[trigger] role_named(rest[j].role@)) is Some by {
            assert(rest[j] == messages[j + 1]);
        }
        lemma_first_unknown_role(rest, i - 1);
    }
}

/// `out` is the conversation of the request `messages`: one session message
/// per request message, each the conversion of the request message at the
/// same position.
pub open spec fn accepted_conversation(messages: Seq<ChatMessage>, out: Seq<Message>) -> bool {
    &&& out.len() == messages.len()
    &&& forall|i: int| 0 <= i < out.len() ==> is_converted_message(#[trigger] out[i], messages[i])
}

/// An accepted conversation keeps the request's order: the roles, the texts
/// and the tool-call ids of the returned messages are those of the request's
/// messages, position by position.
pub proof fn lemma_accepted_conversation_in_order(messages: Seq<ChatMessage>, out: Seq<Message>)
    requires
        accepted_conversation(messages, out),
    ensures
        out.map_values(|m: Message| Some(m.role)) == messages.map_values(|m: ChatMessage| role_named(m.role@)),
        out.map_values(|m: Message| m.content@) == messages.map_values(|m: ChatMessage| content_or_empty(m.content)),
        out.map_values(|m: Message| m.tool_call_id) == messages.map_values(|m: ChatMessage| m.tool_call_id),
{
    assert(out.map_values(|m: Message| Some(m.role)) =~= messages.map_values(|m: ChatMessage| role_named(m.role@)));
    assert(out.map_values(|m: Message| m.content@) =~= messages.map_values(
        |m: ChatMessage| content_or_empty(m.content),
    ));
    assert(out.map_values(|m: Message| m.tool_call_id) =~= messages.map_values(|m: ChatMessage| m.tool_call_id));
}

/// A configured provider and the model it serves.
#[derive(Debug, Clone, PartialEq, Eq)]
pub struct ProviderModel {
    pub provider: String,
    /// The provider's configured model, if any.
    pub model: Option<String>,
}

/// `m` is the listing entry for model `id` of provider `name`.
pub open spec fn is_model_entry(m: ModelObject, id: Seq<char>, name: Seq<char>) -> bool {
    &&& m.id@ == id
    &&& m.object@ == "model"@
    &&& m.created == 0
    &&& m.owned_by@ == "zeptoclaw/"@ + name
}

fn model_entry(id: String, name: &str) -> (m: ModelObject)
    ensures
        is_model_entry(m, id@, name@),
{
    let mut owner = to_owned_string("zeptoclaw/");
    push_str(&mut owner, name);
    ModelObject { id, object: "model", created: 0, owned_by: owner }
}

/// The model listing: one entry per configured provider (its model, or the
/// default model); with none, the fallback provider's default model when a
/// provider is running.
pub fn list_models(
    configured: &Vec<ProviderModel>,
    default_model: &str,
    fallback: Option<(&str, &str)>,
) -> (r: ModelsResponse)
    ensures
        r.object@ == "list"@,
        configured@.len() > 0 ==> r.data@.len() == configured@.len() && forall|i: int|
            0 <= i < configured@.len() ==> is_model_entry(
                #[trigger] r.data@[i],
                match configured@[i].model {
                    Some(m) => m@,
                    None => default_model@,
                },
                configured@[i].provider@,
            ),
        configured@.len() == 0 ==> match fallback {
            Some((model, name)) => r.data@.len() == 1 && is_model_entry(r.data@[0], model@, name@),
            None => r.data@.len() == 0,
        },
{
    let mut data: Vec<ModelObject> = Vec::new();
    let mut i: usize = 0;
    while i < configured.len()
        invariant
            i <= configured@.len(),
            data@.len() == i,
            forall|k: int|
                0 <= k < i ==> is_model_entry(
                    #[trigger] data@[k],
                    match configured@[k].model {
                        Some(m) => m@,
                        None => default_model@,
                    },
                    configured@[k].provider@,
                ),
        decreases configured@.len() - i,
    {
        let pm = &configured[i];
        let id = match &pm.model {
            Some(m) => m.clone(),
            None => to_owned_string(default_model),
        };
        data.push(model_entry(id, pm.provider.as_str()));
        i += 1;
    }
    if data.len() == 0 {
        if let Some((model, name)) = fallback {
            data.push(model_entry(to_owned_string(model), name));
        }
    }
    ModelsResponse { object: "list", data }
}

/// Progress of a server-sent event stream.
#[derive(Debug, Clone, Copy, PartialEq, Eq)]
pub struct StreamState {
    /// The role chunk was sent.
    pub sent_first: bool,
    /// The final chunk was sent; the `[DONE]` sentinel is next.
    pub done: bool,
    /// The `[DONE]` sentinel was sent; the stream is over.
    pub sent_done_sentinel: bool,
    /// Tool calls were sent; a `tool_calls` stop chunk is next.
    pub pending_tool_stop: bool,
}

/// One server-sent event.
#[derive(Debug)]
pub enum SseFrame {
    /// The `[DONE]` sentinel.
    DoneSentinel,
    /// A chunk (sent as JSON data).
    Chunk(ChatCompletionChunk),
    /// A `skip` comment, for an event that gives no chunk.
    SkipComment,
}

/// What the stream does next.
#[derive(Debug)]
pub enum StreamStep {
    /// The stream is over.
    End,
    /// Send this event and go on from this state.
    Emit(SseFrame, StreamState),
    /// Wait for the next provider event and hand it to `on_event`.
    AwaitEvent,
}

impl StreamState {
    /// A stream that has sent nothing.
    pub fn initial() -> (s: Self)
        ensures
            !s.sent_first && !s.done && !s.sent_done_sentinel && !s.pending_tool_stop,
    {
        StreamState { sent_first: false, done: false, sent_done_sentinel: false, pending_tool_stop: false }
    }

    /// The next step without waiting for the provider: end after the
    /// sentinel; the sentinel after the final chunk; the `tool_calls` stop
    /// chunk after tool calls; the role chunk first; else wait.
    pub fn poll(&self, model: &str, id: &str, created: u64) -> (r: StreamStep)
        ensures
            self.sent_done_sentinel ==> r is End,
            !self.sent_done_sentinel && self.done ==> (r matches StreamStep::Emit(SseFrame::DoneSentinel, s)
                && s == (StreamState { sent_first: true, done: true, sent_done_sentinel: true, pending_tool_stop: false })),
            !self.sent_done_sentinel && !self.done && self.pending_tool_stop ==> (r matches StreamStep::Emit(
                SseFrame::Chunk(c),
                s,
            ) && is_plain_chunk(c, model@, id@, created, None, None, Some("tool_calls"@)) && s == (StreamState {
                sent_first: true,
                done: true,
                sent_done_sentinel: false,
                pending_tool_stop: false,
            })),
            !self.sent_done_sentinel && !self.done && !self.pending_tool_stop && !self.sent_first ==> (r matches StreamStep::Emit(
                SseFrame::Chunk(c),
                s,
            ) && is_plain_chunk(c, model@, id@, created, Some("assistant"@), None, None) && s == (StreamState {
                sent_first: true,
                done: false,
                sent_done_sentinel: false,
                pending_tool_stop: false,
            })),
            !self.sent_done_sentinel && !self.done && !self.pending_tool_stop && self.sent_first ==> r is AwaitEvent,
            match r {
                StreamStep::Emit(f, t) => polled_state(*self) == Some(t) && frame_is(f, poll_kind(*self)),
                _ => polled_state(*self) is None,
            },
    {
        if self.sent_done_sentinel {
            StreamStep::End
        } else if self.done {
            StreamStep::Emit(
                SseFrame::DoneSentinel,
                StreamState { sent_first: true, done: true, sent_done_sentinel: true, pending_tool_stop: false },
            )
        } else if self.pending_tool_stop {
            StreamStep::Emit(
                SseFrame::Chunk(done_chunk_with_reason(model, id, created, "tool_calls")),
                StreamState { sent_first: true, done: true, sent_done_sentinel: false, pending_tool_stop: false },
            )
        } else if !self.sent_first {
            StreamStep::Emit(
                SseFrame::Chunk(first_chunk(model, id, created)),
                StreamState { sent_first: true, done: false, sent_done_sentinel: false, pending_tool_stop: false },
            )
        } else {
            StreamStep::AwaitEvent
        }
    }

    /// The event to send for the provider's next event (`None` when its
    /// channel closed) and the state after it: a closed channel sends the
    /// sentinel and ends; a chunk-giving event sends its chunk (after tool
    /// calls, a stop chunk follows; after `Done`, the sentinel); other events
    /// send a `skip` comment.
    pub fn on_event(event: Option<&StreamEvent>, model: &str, id: &str, created: u64) -> (r: (SseFrame, StreamState))
        ensures
            match event {
                None => r.0 is DoneSentinel && r.1 == (StreamState {
                    sent_first: true,
                    done: true,
                    sent_done_sentinel: true,
                    pending_tool_stop: false,
                }),
                Some(e) => match *e {
                    StreamEvent::Delta(text) => (r.0 matches SseFrame::Chunk(c) && is_plain_chunk(
                        c,
                        model@,
                        id@,
                        created,
                        None,
                        Some(text@),
                        None,
                    )) && r.1 == (StreamState { sent_first: true, done: false, sent_done_sentinel: false, pending_tool_stop: false }),
                    StreamEvent::Done { .. } => (r.0 matches SseFrame::Chunk(c) && is_plain_chunk(
                        c,
                        model@,
                        id@,
                        created,
                        None,
                        None,
                        Some("stop"@),
                    )) && r.1 == (StreamState { sent_first: true, done: true, sent_done_sentinel: false, pending_tool_stop: false }),
                    StreamEvent::ToolCalls(calls) => if calls@.len() > 0 {
                        (r.0 matches SseFrame::Chunk(c) && is_tool_calls_chunk(c, calls@, model@, id@, created))
                            && r.1 == (StreamState { sent_first: true, done: false, sent_done_sentinel: false, pending_tool_stop: true })
                    } else {
                        r.0 is SkipComment && r.1 == (StreamState {
                            sent_first: true,
                            done: false,
                            sent_done_sentinel: false,
                            pending_tool_stop: false,
                        })
                    },
                    StreamEvent::Error(_) => r.0 is SkipComment && r.1 == (StreamState {
                        sent_first: true,
                        done: false,
                        sent_done_sentinel: false,
                        pending_tool_stop: false,
                    }),
                },
            },
            frame_is(r.0, event_kind(owned_event(event))),
            r.1 == event_state(owned_event(event)),
    {
        match event {
            None => (
                SseFrame::DoneSentinel,
                StreamState { sent_first: true, done: true, sent_done_sentinel: true, pending_tool_stop: false },
            ),
            Some(e) => {
                let is_done = match e {
                    StreamEvent::Done { .. } => true,
                    _ => false,
                };
                let is_tool_calls = match e {
                    StreamEvent::ToolCalls(c) => c.len() > 0,
                    _ => false,
                };
                match chunk_from_stream_event(e, model, id, created) {
                    Some(chunk) => {
                        if is_tool_calls {
                            (
                                SseFrame::Chunk(chunk),
                                StreamState { sent_first: true, done: false, sent_done_sentinel: false, pending_tool_stop: true },
                            )
                        } else if is_done {
                            (
                                SseFrame::Chunk(chunk),
                                StreamState { sent_first: true, done: true, sent_done_sentinel: false, pending_tool_stop: false },
                            )
                        } else {
                            (
                                SseFrame::Chunk(chunk),
                                StreamState { sent_first: true, done: false, sent_done_sentinel: false, pending_tool_stop: false },
                            )
                        }
                    },
                    None => (
                        SseFrame::SkipComment,
                        StreamState { sent_first: true, done: false, sent_done_sentinel: false, pending_tool_stop: false },
                    ),
                }
            },
        }
    }
}

/// The state after a step taken without waiting for the provider (`None`
/// when the stream is over or must wait for the provider).
pub open spec fn polled_state(s: StreamState) -> Option<StreamState> {
    if s.sent_done_sentinel {
        None
    } else if s.done {
        Some(StreamState { sent_first: true, done: true, sent_done_sentinel: true, pending_tool_stop: false })
    } else if s.pending_tool_stop {
        Some(StreamState { sent_first: true, done: true, sent_done_sentinel: false, pending_tool_stop: false })
    } else if !s.sent_first {
        Some(StreamState { sent_first: true, done: false, sent_done_sentinel: false, pending_tool_stop: false })
    } else {
        None
    }
}

/// Once a stream has sent its final chunk, or its tool calls, it ends
/// without waiting for the provider again: the `[DONE]` sentinel is sent
/// (after the `tool_calls` stop chunk, for tool calls) and then the stream is
/// over.
pub proof fn lemma_stream_ends_after_done(s: StreamState)
    requires
        !s.sent_done_sentinel,
        s.done || s.pending_tool_stop,
    ensures
        s.done ==> (polled_state(s) matches Some(t) && t.sent_done_sentinel && polled_state(t) is None),
        !s.done ==> (polled_state(s) matches Some(t) && t.done && !t.sent_done_sentinel && (polled_state(t) matches Some(
            u,
        ) && u.sent_done_sentinel && polled_state(u) is None)),
{
}

/// What a stream sends, by kind.
#[derive(Debug, Clone, Copy, PartialEq, Eq)]
pub enum FrameKind {
    /// The role chunk that opens the stream.
    Role,
    /// The chunk of a text fragment.
    Text,
    /// The final chunk (finish reason `stop`).
    Final,
    /// The chunk of the model's tool calls.
    ToolCalls,
    /// The `tool_calls` stop chunk.
    ToolStop,
    /// A `skip` comment.
    Skip,
    /// The `[DONE]` sentinel.
    Sentinel,
}

/// Whether a frame is one of the given kind: the sentinel, a `skip`
/// comment, or a chunk.
pub open spec fn frame_is(f: SseFrame, k: FrameKind) -> bool {
    match k {
        FrameKind::Sentinel => f is DoneSentinel,
        FrameKind::Skip => f is SkipComment,
        _ => f is Chunk,
    }
}

/// The provider's event, taken by value.
pub open spec fn owned_event(ev: Option<&StreamEvent>) -> Option<StreamEvent> {
    match ev {
        Some(e) => Some(*e),
        None => None,
    }
}

/// The kind of frame sent without waiting for the provider.
pub open spec fn poll_kind(s: StreamState) -> FrameKind {
    if s.done {
        FrameKind::Sentinel
    } else if s.pending_tool_stop {
        FrameKind::ToolStop
    } else {
        FrameKind::Role
    }
}

/// The kind of frame sent for a provider event (`None`: the channel closed).
pub open spec fn event_kind(ev: Option<StreamEvent>) -> FrameKind {
    match ev {
        None => FrameKind::Sentinel,
        Some(StreamEvent::Delta(_)) => FrameKind::Text,
        Some(StreamEvent::Done { .. }) => FrameKind::Final,
        Some(StreamEvent::ToolCalls(calls)) => if calls@.len() > 0 {
            FrameKind::ToolCalls
        } else {
            FrameKind::Skip
        },
        Some(StreamEvent::Error(_)) => FrameKind::Skip,
    }
}

/// The state of a stream that has sent its role chunk and waits for the
/// provider.
pub open spec fn streaming_state() -> StreamState {
    StreamState { sent_first: true, done: false, sent_done_sentinel: false, pending_tool_stop: false }
}

/// The state after a provider event.
pub open spec fn event_state(ev: Option<StreamEvent>) -> StreamState {
    match event_kind(ev) {
        FrameKind::Sentinel => StreamState { sent_first: true, done: true, sent_done_sentinel: true, pending_tool_stop: false },
        FrameKind::Final => StreamState { sent_first: true, done: true, sent_done_sentinel: false, pending_tool_stop: false },
        FrameKind::ToolCalls => StreamState { sent_first: true, done: false, sent_done_sentinel: false, pending_tool_stop: true },
        _ => streaming_state(),
    }
}

/// A measure of the steps a stream takes before it waits for the provider.
pub open spec fn poll_rank(s: StreamState) -> nat {
    if s.sent_done_sentinel {
        0
    } else if s.done {
        1
    } else if s.pending_tool_stop {
        2
    } else if !s.sent_first {
        1
    } else {
        0
    }
}

/// The kinds of frame a stream sends from state `s` when the provider's
/// channel gives the events `evs` in order (`None` where it closes): it
/// sends what `poll` gives, and when `poll` waits, the frame of the next
/// event; it ends after the sentinel, or when no event is left.
pub open spec fn stream_run(s: StreamState, evs: Seq<Option<StreamEvent>>) -> Seq<FrameKind>
    decreases evs.len(), poll_rank(s),
{
    match polled_state(s) {
        Some(t) => seq![poll_kind(s)] + stream_run(t, evs),
        None => if s.sent_done_sentinel || evs.len() == 0 {
            Seq::empty()
        } else {
            seq![event_kind(evs[0])] + stream_run(event_state(evs[0]), evs.drop_first())
        },
    }
}

/// An event after which the stream waits for the provider no more: the
/// channel closing, the final event, or tool calls.
pub open spec fn ends_stream(ev: Option<StreamEvent>) -> bool {
    event_kind(ev) is Sentinel || event_kind(ev) is Final || event_kind(ev) is ToolCalls
}

/// What a stream sends after the frame of the event that ends it.
pub open spec fn closing_frames(ev: Option<StreamEvent>) -> Seq<FrameKind> {
    match event_kind(ev) {
        FrameKind::Final => seq![FrameKind::Sentinel],
        FrameKind::ToolCalls => seq![FrameKind::ToolStop, FrameKind::Sentinel],
        _ => Seq::empty(),
    }
}

proof fn lemma_run_from_streaming(evs: Seq<Option<StreamEvent>>, j: int)
    requires
        0 <= j < evs.len(),
        ends_stream(evs[j]),
        forall|i: int| 0 <= i < j ==> !ends_stream(#[trigger] evs[i]),
    ensures
        stream_run(streaming_state(), evs) == Seq::new((j + 1) as nat, |i: int| event_kind(evs[i])) + closing_frames(
            evs[j],
        ),
    decreases evs.len(),
{
    let p = streaming_state();
    let k = event_kind(evs[0]);
    let t = event_state(evs[0]);
    let rest = evs.drop_first();
    assert(stream_run(p, evs) == seq![k] + stream_run(t, rest));
    if j == 0 {
        if k is Sentinel {
            assert(stream_run(t, rest) == Seq::<FrameKind>::empty());
        } else if k is Final {
            let u = StreamState { sent_first: true, done: true, sent_done_sentinel: true, pending_tool_stop: false };
            assert(stream_run(u, rest) == Seq::<FrameKind>::empty());
            assert(stream_run(t, rest) == seq![FrameKind::Sentinel] + stream_run(u, rest));
        } else {
            let d = StreamState { sent_first: true, done: true, sent_done_sentinel: false, pending_tool_stop: false };
            let u = StreamState { sent_first: true, done: true, sent_done_sentinel: true, pending_tool_stop: false };
            assert(stream_run(u, rest) == Seq::<FrameKind>::empty());
            assert(stream_run(d, rest) == seq![FrameKind::Sentinel] + stream_run(u, rest));
            assert(stream_run(t, rest) == seq![FrameKind::ToolStop] + stream_run(d, rest));
        }
        assert(stream_run(p, evs) =~= Seq::new((j + 1) as nat, |i: int| event_kind(evs[i])) + closing_frames(evs[j]));
    } else {
        assert(!ends_stream(evs[0]));
        assert(t == p);
        assert forall|i: int| 0 <= i < j - 1 implies !ends_stream(#[trigger] rest[i]) by {
            assert(rest[i] == evs[i + 1]);
        }
        lemma_run_from_streaming(rest, j - 1);
        assert(stream_run(p, evs) =~= Seq::new((j + 1) as nat, |i: int| event_kind(evs[i])) + closing_frames(evs[j]));
    }
}

/// A whole stream: from a stream that has sent nothing, with the provider
/// giving the events `evs`, of which `evs[j]` is the first that ends the
/// stream (the channel closing, the final event, or non-empty tool calls),
/// the stream sends the role chunk, then one frame per event up to and
/// including `evs[j]`, then the sentinel after the final chunk, or the
/// `tool_calls` stop chunk and the sentinel after tool calls. The sentinel
/// is sent exactly once, and last.
pub proof fn lemma_stream_run(evs: Seq<Option<StreamEvent>>, j: int)
    requires
        0 <= j < evs.len(),
        ends_stream(evs[j]),
        forall|i: int| 0 <= i < j ==> !ends_stream(#[trigger] evs[i]),
    ensures
        stream_run(StreamState { sent_first: false, done: false, sent_done_sentinel: false, pending_tool_stop: false }, evs)
            == seq![FrameKind::Role] + Seq::new((j + 1) as nat, |i: int| event_kind(evs[i])) + closing_frames(evs[j]),
        ({
            let run = stream_run(
                StreamState { sent_first: false, done: false, sent_done_sentinel: false, pending_tool_stop: false },
                evs,
            );
            &&& run.len() > 0
            &&& run.last() == FrameKind::Sentinel
            &&& forall|i: int| 0 <= i < run.len() - 1 ==> run[i] != FrameKind::Sentinel
        }),
{
    let s0 = StreamState { sent_first: false, done: false, sent_done_sentinel: false, pending_tool_stop: false };
    lemma_run_from_streaming(evs, j);
    assert(stream_run(s0, evs) == seq![FrameKind::Role] + stream_run(streaming_state(), evs));
    let run = stream_run(s0, evs);
    let body = Seq::new((j + 1) as nat, |i: int| event_kind(evs[i]));
    assert(run =~= seq![FrameKind::Role] + body + closing_frames(evs[j]));
    assert forall|i: int| 0 <= i < run.len() - 1 implies run[i] != FrameKind::Sentinel by {
        if 1 <= i <= j {
            assert(run[i] == event_kind(evs[i - 1]));
            assert(!ends_stream(evs[i - 1]));
        }
    }
}

} // verus!
