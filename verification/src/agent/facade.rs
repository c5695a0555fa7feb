//! The embedding facade: an agent with a provider, tools, a system prompt and
//! a persistent conversation history, and the steps of one chat exchange.
//!
//! A chat is driven from outside: `begin_chat` records the user message, and
//! each provider answer or batch of tool results is handed back to the agent,
//! which records it and says what to do next, until it replies.
use vstd::prelude::*;

use crate::error::ZeptoError;
use crate::providers::{LLMResponse, LLMToolCall};
use crate::session::{is_text_message, Message, Role, ToolCall};
use crate::text::{push_str, str_eq, to_owned_string};

verus! {

/// Tool-call rounds allowed per chat unless configured otherwise.
pub const DEFAULT_MAX_ITERATIONS: usize = 10;

/// The system prompt used when none is configured.
pub open spec fn default_system_prompt() -> Seq<char> {
    "You are a helpful AI assistant."@
}

/// The reply given when the tool-call rounds run out.
pub open spec fn iteration_cap_reply() -> Seq<char> {
    "I've completed the requested actions."@
}

/// The error of a builder without a provider.
pub open spec fn missing_provider_error() -> Seq<char> {
    "ZeptoAgent requires a provider. Call .provider() on the builder."@
}

/// Builder for [`ZeptoAgent`].
pub struct ZeptoAgentBuilder<P, T> {
    provider: Option<P>,
    tools: Vec<T>,
    system_prompt: Option<String>,
    max_iterations: usize,
    model: Option<String>,
}

/// What a builder holds.
pub struct BuilderView<P, T> {
    pub provider: Option<P>,
    pub tools: Seq<T>,
    pub system_prompt: Option<Seq<char>>,
    pub max_iterations: usize,
    pub model: Option<Seq<char>>,
}

impl<P, T> View for ZeptoAgentBuilder<P, T> {
    type V = BuilderView<P, T>;

    closed spec fn view(&self) -> BuilderView<P, T> {
        BuilderView {
            provider: self.provider,
            tools: self.tools@,
            system_prompt: match self.system_prompt {
                Some(s) => Some(s@),
                None => None,
            },
            max_iterations: self.max_iterations,
            model: match self.model {
                Some(m) => Some(m@),
                None => None,
            },
        }
    }
}

impl<P, T> ZeptoAgentBuilder<P, T> {
    /// A builder without provider, tools, prompt or model, allowing 10 rounds.
    pub fn new() -> (b: Self)
        ensures
            b@.provider is None,
            b@.tools.len() == 0,
            b@.system_prompt is None,
            b@.max_iterations == DEFAULT_MAX_ITERATIONS,
            b@.model is None,
    {
        ZeptoAgentBuilder {
            provider: None,
            tools: Vec::new(),
            system_prompt: None,
            max_iterations: DEFAULT_MAX_ITERATIONS,
            model: None,
        }
    }

    /// Sets the provider (required).
    pub fn provider(self, provider: P) -> (b: Self)
        ensures
            b@ == (BuilderView { provider: Some(provider), ..self@ }),
    {
        ZeptoAgentBuilder { provider: Some(provider), ..self }
    }

    /// Adds a tool.
    pub fn tool(self, tool: T) -> (b: Self)
        ensures
            b@ == (BuilderView { tools: self@.tools.push(tool), ..self@ }),
    {
        let mut b = self;
        b.tools.push(tool);
        b
    }

    /// Adds several tools, in order.
    pub fn tools(self, tools: Vec<T>) -> (b: Self)
        ensures
            b@ == (BuilderView { tools: self@.tools + tools@, ..self@ }),
    {
        let mut b = self;
        let mut more = tools;
        b.tools.append(&mut more);
        b
    }

    /// Sets the system prompt.
    pub fn system_prompt(self, prompt: &str) -> (b: Self)
        ensures
            b@ == (BuilderView { system_prompt: Some(prompt@), ..self@ }),
    {
        ZeptoAgentBuilder { system_prompt: Some(to_owned_string(prompt)), ..self }
    }

    /// Sets the number of tool-call rounds allowed per chat.
    pub fn max_iterations(self, max: usize) -> (b: Self)
        ensures
            b@ == (BuilderView { max_iterations: max, ..self@ }),
    {
        ZeptoAgentBuilder { max_iterations: max, ..self }
    }

    /// Sets the model (otherwise the provider's default is used).
    pub fn model(self, model: &str) -> (b: Self)
        ensures
            b@ == (BuilderView { model: Some(model@), ..self@ }),
    {
        ZeptoAgentBuilder { model: Some(to_owned_string(model)), ..self }
    }

    /// The agent, with an empty history; a configuration error without a provider.
    pub fn build(self) -> (r: Result<ZeptoAgent<P, T>, ZeptoError>)
        ensures
            match self@.provider {
                None => r matches Err(ZeptoError::Config(m)) && m@ == missing_provider_error(),
                Some(p) => r matches Ok(a) && a@ == (AgentView {
                    provider: p,
                    tools: self@.tools,
                    system_prompt: match self@.system_prompt {
                        Some(s) => s,
                        None => default_system_prompt(),
                    },
                    max_iterations: self@.max_iterations,
                    history: Seq::empty(),
                    model: self@.model,
                }),
            },
    {
        let ZeptoAgentBuilder { provider, tools, system_prompt, max_iterations, model } = self;
        match provider {
            None => Err(
                ZeptoError::Config(
                    to_owned_string("ZeptoAgent requires a provider. Call .provider() on the builder."),
                ),
            ),
            Some(p) => {
                let prompt = match system_prompt {
                    Some(s) => s,
                    None => to_owned_string("You are a helpful AI assistant."),
                };
                let a = ZeptoAgent {
                    provider: p,
                    tools,
                    system_prompt: prompt,
                    max_iterations,
                    history: Vec::new(),
                    model,
                };
                assert(a@.history =~= Seq::<Message>::empty());
                Ok(a)
            },
        }
    }
}

/// An agent with a persistent conversation history.
pub struct ZeptoAgent<P, T> {
    provider: P,
    tools: Vec<T>,
    system_prompt: String,
    max_iterations: usize,
    history: Vec<Message>,
    model: Option<String>,
}

/// What an agent holds.
pub struct AgentView<P, T> {
    pub provider: P,
    pub tools: Seq<T>,
    pub system_prompt: Seq<char>,
    pub max_iterations: usize,
    pub history: Seq<Message>,
    pub model: Option<Seq<char>>,
}

impl<P, T> View for ZeptoAgent<P, T> {
    type V = AgentView<P, T>;

    closed spec fn view(&self) -> AgentView<P, T> {
        AgentView {
            provider: self.provider,
            tools: self.tools@,
            system_prompt: self.system_prompt@,
            max_iterations: self.max_iterations,
            history: self.history@,
            model: match self.model {
                Some(m) => Some(m@),
                None => None,
            },
        }
    }
}

/// `b` is `a` with only its history possibly changed.
pub open spec fn same_setup<P, T>(a: AgentView<P, T>, b: AgentView<P, T>) -> bool {
    &&& b.provider == a.provider
    &&& b.tools == a.tools
    &&& b.system_prompt == a.system_prompt
    &&& b.max_iterations == a.max_iterations
    &&& b.model == a.model
}

/// `after` is `before` followed by `n` more messages.
pub open spec fn grows_by(before: Seq<Message>, after: Seq<Message>, n: nat) -> bool {
    &&& after.len() == before.len() + n
    &&& after.take(before.len() as int) == before
}

/// What the agent asks for next in a chat.
#[derive(Debug)]
pub enum ChatStep {
    /// Call the provider with the messages of `provider_request`: the system
    /// prompt followed by the whole history (which ends with the user message
    /// or the latest tool results), the agent's tools and its model.
    CallProvider,
    /// Run the tool calls of the last provider answer and report their results.
    RunTools,
    /// The chat is over; this is the reply.
    Reply(String),
}

/// The progress of one chat: the number of tool-call rounds done.
#[derive(Debug, Clone, Copy, PartialEq, Eq)]
pub struct ChatTurn {
    pub rounds: usize,
}

/// How a tool call went.
#[derive(Debug)]
pub enum ToolOutcome {
    /// The tool ran; this is its output for the model.
    Output(String),
    /// The tool failed with this error text.
    Failed(String),
    /// No tool of that name is registered.
    Unknown,
}

/// The text recorded for a tool call named `name` that went as `outcome`.
pub open spec fn tool_result_text(name: Seq<char>, outcome: ToolOutcome) -> Seq<char> {
    match outcome {
        ToolOutcome::Output(s) => s@,
        ToolOutcome::Failed(e) => "Tool error: "@ + e@,
        ToolOutcome::Unknown => "Unknown tool: "@ + name,
    }
}

/// `tc` is the session form of the model's tool call `c`.
pub open spec fn records_tool_call(tc: ToolCall, c: LLMToolCall) -> bool {
    &&& tc.id@ == c.id@
    &&& tc.name@ == c.name@
    &&& tc.arguments@ == c.arguments@
}

/// The text recorded for a tool call.
pub fn tool_result(name: &str, outcome: ToolOutcome) -> (s: String)
    ensures
        s@ == tool_result_text(name@, outcome),
{
    match outcome {
        ToolOutcome::Output(s) => s,
        ToolOutcome::Failed(e) => {
            let mut s = to_owned_string("Tool error: ");
            push_str(&mut s, e.as_str());
            s
        },
        ToolOutcome::Unknown => {
            let mut s = to_owned_string("Unknown tool: ");
            push_str(&mut s, name);
            s
        },
    }
}

/// The position of the first tool named `name` among `tool_names`.
pub fn find_tool(tool_names: &Vec<String>, name: &str) -> (r: Option<usize>)
    ensures
        match r {
            Some(i) => i < tool_names@.len() && tool_names@[i as int]@ == name@ && forall|j: int|
                0 <= j < i ==> tool_names@[j]@ != name@,
            None => forall|j: int| 0 <= j < tool_names@.len() ==> tool_names@[j]@ != name@,
        },
{
    let mut i: usize = 0;
    while i < tool_names.len()
        invariant
            i <= tool_names@.len(),
            forall|j: int| 0 <= j < i ==> tool_names@[j]@ != name@,
        decreases tool_names@.len() - i,
    {
        if str_eq(tool_names[i].as_str(), name) {
            return Some(i);
        }
        i += 1;
    }
    None
}

/// The session form of the model's tool calls.
fn session_calls(calls: &Vec<LLMToolCall>) -> (v: Vec<ToolCall>)
    ensures
        v@.len() == calls@.len(),
        forall|i: int| 0 <= i < v@.len() ==> records_tool_call(#[trigger] v@[i], calls@[i]),
{
    let mut v: Vec<ToolCall> = Vec::new();
    let mut i: usize = 0;
    while i < calls.len()
        invariant
            i <= calls@.len(),
            v@.len() == i,
            forall|k: int| 0 <= k < i ==> records_tool_call(#[trigger] v@[k], calls@[k]),
        decreases calls@.len() - i,
    {
        let c = &calls[i];
        v.push(ToolCall::new(c.id.as_str(), c.name.as_str(), c.arguments.as_str()));
        i += 1;
    }
    v
}

impl<P, T> ZeptoAgent<P, T> {
    /// The provider.
    pub fn provider(&self) -> (p: &P)
        ensures
            *p == self@.provider,
    {
        &self.provider
    }

    /// The registered tools.
    pub fn tools(&self) -> (t: &[T])
        ensures
            t@ == self@.tools,
    {
        self.tools.as_slice()
    }

    /// The system prompt.
    pub fn system_prompt(&self) -> (s: &str)
        ensures
            s@ == self@.system_prompt,
    {
        self.system_prompt.as_str()
    }

    /// The model override, if any.
    pub fn model(&self) -> (m: Option<&str>)
        ensures
            match m {
                Some(s) => self@.model == Some(s@),
                None => self@.model is None,
            },
    {
        match &self.model {
            Some(m) => Some(m.as_str()),
            None => None,
        }
    }

    /// Tool-call rounds allowed per chat.
    pub fn max_iterations(&self) -> (n: usize)
        ensures
            n == self@.max_iterations,
    {
        self.max_iterations
    }

    /// The number of registered tools.
    pub fn tool_count(&self) -> (n: usize)
        ensures
            n == self@.tools.len(),
    {
        self.tools.len()
    }

    /// The conversation history.
    pub fn history(&self) -> (h: &[Message])
        ensures
            h@ == self@.history,
    {
        self.history.as_slice()
    }

    /// The number of messages in the history.
    pub fn history_len(&self) -> (n: usize)
        ensures
            n == self@.history.len(),
    {
        self.history.len()
    }

    /// The messages the provider is called with: a system message holding the
    /// system prompt, then the whole history in order.
    pub fn provider_request(&self) -> (r: (Message, &[Message]))
        ensures
            r.0.role == Role::System,
            is_text_message(r.0, self@.system_prompt),
            r.1@ == self@.history,
    {
        (Message::system(self.system_prompt.as_str()), self.history.as_slice())
    }

    /// Forgets the conversation.
    pub fn clear_history(&mut self)
        ensures
            same_setup(old(self)@, final(self)@),
            final(self)@.history.len() == 0,
    {
        self.history.clear();
    }

    /// Ends the chat with the iteration-cap reply.
    fn finish_at_cap(&mut self) -> (r: String)
        ensures
            same_setup(old(self)@, final(self)@),
            grows_by(old(self)@.history, final(self)@.history, 1),
            final(self)@.history.last().role == Role::Assistant,
            is_text_message(final(self)@.history.last(), iteration_cap_reply()),
            r@ == iteration_cap_reply(),
    {
        let cap = to_owned_string("I've completed the requested actions.");
        self.history.push(Message::assistant(cap.as_str()));
        assert(self.history@.take(self.history@.len() - 1) =~= old(self).history@);
        cap
    }

    /// Starts a chat: records the user message, then asks for the provider
    /// (or replies at once when no round is allowed).
    pub fn begin_chat(&mut self, user_message: &str) -> (r: (ChatTurn, ChatStep))
        ensures
            same_setup(old(self)@, final(self)@),
            r.0.rounds == 0,
            final(self)@.history[old(self)@.history.len() as int].role == Role::User,
            is_text_message(final(self)@.history[old(self)@.history.len() as int], user_message@),
            old(self)@.max_iterations > 0 ==> grows_by(old(self)@.history, final(self)@.history, 1)
                && r.1 is CallProvider,
            old(self)@.max_iterations == 0 ==> grows_by(old(self)@.history, final(self)@.history, 2)
                && is_text_message(final(self)@.history.last(), iteration_cap_reply())
                && (r.1 matches ChatStep::Reply(s) && s@ == iteration_cap_reply()),
    {
        let ghost h0 = self.history@;
        self.history.push(Message::user(user_message));
        assert(self.history@.take(h0.len() as int) =~= h0);
        let turn = ChatTurn { rounds: 0 };
        if self.max_iterations == 0 {
            let ghost h1 = self.history@;
            let cap = self.finish_at_cap();
            assert(self.history@.take(h0.len() as int) =~= h1.take(h0.len() as int));
            assert(self.history@[h0.len() as int] == h1[h0.len() as int]);
            (turn, ChatStep::Reply(cap))
        } else {
            (turn, ChatStep::CallProvider)
        }
    }

    /// Records a provider answer: a plain answer ends the chat with its text;
    /// an answer with tool calls is recorded with its calls, which are to run next.
    pub fn on_provider_response(&mut self, response: &LLMResponse) -> (r: ChatStep)
        ensures
            same_setup(old(self)@, final(self)@),
            grows_by(old(self)@.history, final(self)@.history, 1),
            final(self)@.history.last().role == Role::Assistant,
            final(self)@.history.last().content@ == response.content@,
            final(self)@.history.last().tool_call_id is None,
            response.tool_calls@.len() == 0 ==> is_text_message(final(self)@.history.last(), response.content@)
                && (r matches ChatStep::Reply(s) && s@ == response.content@),
            response.tool_calls@.len() > 0 ==> r is RunTools && (final(self)@.history.last().tool_calls
                matches Some(v) && v@.len() == response.tool_calls@.len() && forall|i: int|
                0 <= i < v@.len() ==> records_tool_call(#[trigger] v@[i], response.tool_calls@[i])),
    {
        if !response.has_tool_calls() {
            self.history.push(Message::assistant(response.content.as_str()));
            assert(self.history@.take(self.history@.len() - 1) =~= old(self).history@);
            ChatStep::Reply(response.content.clone())
        } else {
            let calls = session_calls(&response.tool_calls);
            self.history.push(Message::assistant_with_tools(response.content.as_str(), calls));
            assert(self.history@.take(self.history@.len() - 1) =~= old(self).history@);
            ChatStep::RunTools
        }
    }

    /// Records the results of the tool calls of the last answer (one text per
    /// call, in order), then asks for the provider again, or replies with the
    /// iteration-cap text once the allowed rounds are used up.
    pub fn on_tool_results(&mut self, turn: ChatTurn, calls: &Vec<LLMToolCall>, results: Vec<String>) -> (r: (
        ChatTurn,
        ChatStep,
    ))
        requires
            results@.len() == calls@.len(),
            turn.rounds < old(self)@.max_iterations,
        ensures
            same_setup(old(self)@, final(self)@),
            r.0.rounds == turn.rounds + 1,
            final(self)@.history.len() >= old(self)@.history.len() + calls@.len(),
            final(self)@.history.take(old(self)@.history.len() as int) == old(self)@.history,
            forall|i: int|
                0 <= i < calls@.len() ==> {
                    let m = #[trigger] final(self)@.history[old(self)@.history.len() + i];
                    &&& m.role == Role::Tool
                    &&& m.content@ == results@[i]@
                    &&& m.tool_call_id matches Some(id) && id@ == calls@[i].id@
                },
            turn.rounds + 1 < old(self)@.max_iterations ==> r.1 is CallProvider && grows_by(
                old(self)@.history,
                final(self)@.history,
                calls@.len(),
            ),
            turn.rounds + 1 >= old(self)@.max_iterations ==> grows_by(
                old(self)@.history,
                final(self)@.history,
                calls@.len() + 1,
            ) && is_text_message(final(self)@.history.last(), iteration_cap_reply()) && (r.1 matches ChatStep::Reply(
                s,
            ) && s@ == iteration_cap_reply()),
    {
        let ghost h0 = self.history@;
        let n0 = self.history.len();
        let mut i: usize = 0;
        while i < calls.len()
            invariant
                i <= calls@.len(),
                results@.len() == calls@.len(),
                same_setup(old(self)@, self@),
                h0 == old(self)@.history,
                n0 == h0.len(),
                self@.history.len() == h0.len() + i,
                self@.history.take(h0.len() as int) == h0,
                forall|k: int|
                    0 <= k < i ==> {
                        let m = #[trigger] self@.history[h0.len() + k];
                        &&& m.role == Role::Tool
                        &&& m.content@ == results@[k]@
                        &&& m.tool_call_id matches Some(id) && id@ == calls@[k].id@
                    },
            decreases calls@.len() - i,
        {
            let ghost before = self.history@;
            self.history.push(Message::tool_result(calls[i].id.as_str(), results[i].as_str()));
            assert(self.history@.take(h0.len() as int) =~= before.take(h0.len() as int));
            assert forall|k: int| 0 <= k < i implies #[trigger] self@.history[h0.len() + k] == before[h0.len() + k] by {}
            i += 1;
        }
        let next = ChatTurn { rounds: turn.rounds + 1 };
        if next.rounds < self.max_iterations {
            (next, ChatStep::CallProvider)
        } else {
            let ghost h1 = self.history@;
            let cap = self.finish_at_cap();
            assert(self.history@.take(h0.len() as int) =~= h1.take(h0.len() as int));
            assert forall|k: int| 0 <= k < calls@.len() implies #[trigger] self@.history[h0.len() + k] == h1[h0.len() + k] by {}
            (next, ChatStep::Reply(cap))
        }
    }
}

} // verus!
