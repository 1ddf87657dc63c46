//! The loop: turn after turn it asks the model, gathers the tool calls of the
//! answer, has each one permitted and run, and puts the results where the next
//! turn sees them. It hands out what is to be done and takes back what came of
//! it, one moment at a time.

use vstd::prelude::*;

use crate::agent::types::{
    Action, ActionView, AgentConfig, AgentError, AgentErrorView, AgentEvent, AgentEventView,
    AgentRun, AgentRunView, CallView, ConfigView, DecisionView, Input, InputView, Moment,
    MomentView, PermissionDecision, ToolCall,
};
use crate::types::{
    AssistantMessage, AssistantMessageEvent, AssistantView, Content, ContentView, Context,
    ContextView, EventView, Message, MessageView, OptionsView, StopReason, StreamOptions,
    ThinkingLevel, Tool, ToolResultMessage, ToolResultView, ToolView,
};

verus! {

/// Where a run stands.
#[derive(Debug, PartialEq)]
enum Phase {
    Ready,
    Answering,
    Calling,
    Checking(ToolCall),
    Asking(ToolCall),
    Executing(ToolCall),
    Over,
}

/// Where a run stands.
pub enum PhaseView {
    /// Between two turns.
    Ready,
    /// The model is answering.
    Answering,
    /// Between two tool calls.
    Calling,
    /// The tool of a call is asked whether the call has to be permitted.
    Checking(CallView),
    /// A call is waiting for permission.
    Asking(CallView),
    /// The tool of a call is at work.
    Executing(CallView),
    /// Nothing more happens.
    Over,
}

/// The state of a run.
pub struct LoopView {
    pub config: ConfigView,
    /// The transcript.
    pub messages: Seq<MessageView>,
    /// How many turns have begun.
    pub turn: u32,
    /// The names of the tools that are allowed for the rest of the run.
    pub allowed: Seq<Seq<char>>,
    /// The calls of this turn that have not begun.
    pub waiting: Seq<CallView>,
    /// Whether every call of this turn so far asked to end the run.
    pub all_terminate: bool,
    pub phase: PhaseView,
}

/// The tool calls among the pieces of an answer.
pub open spec fn calls_of(content: Seq<ContentView>) -> Seq<CallView>
    decreases content.len(),
{
    if content.len() == 0 {
        Seq::empty()
    } else {
        match content.last() {
            ContentView::ToolCall { id, name, arguments } => calls_of(content.drop_last()).push(
                CallView { id, name, args: arguments },
            ),
            _ => calls_of(content.drop_last()),
        }
    }
}

/// Where the tool of a name is: the last one, where several have that name.
pub open spec fn tool_named(tools: Seq<ToolView>, name: Seq<char>) -> Option<int>
    decreases tools.len(),
{
    if tools.len() == 0 {
        None
    } else if tools.last().name == name {
        Some(tools.len() - 1)
    } else {
        tool_named(tools.drop_last(), name)
    }
}

/// What the model is asked in a turn.
pub open spec fn context_of(config: ConfigView, messages: Seq<MessageView>) -> ContextView {
    ContextView {
        system_prompt: Some(config.system_prompt),
        messages,
        tools: config.tools,
    }
}

/// How the model is asked: the level of thinking of the run counts where the
/// options name none.
pub open spec fn options_of(config: ConfigView) -> OptionsView {
    if config.stream_options.reasoning is None && config.thinking_level != ThinkingLevel::Off {
        OptionsView { reasoning: Some(config.thinking_level), ..config.stream_options }
    } else {
        config.stream_options
    }
}

/// One piece of text.
pub open spec fn one_text(text: Seq<char>) -> Seq<ContentView> {
    seq![ContentView::Text { text }]
}

impl LoopView {
    /// The state at the start of a run.
    pub open spec fn fresh(config: ConfigView, messages: Seq<MessageView>) -> LoopView {
        LoopView {
            config,
            messages,
            turn: 0,
            allowed: Seq::empty(),
            waiting: Seq::empty(),
            all_terminate: false,
            phase: PhaseView::Ready,
        }
    }

    /// Whether the run can take an input where it stands.
    pub open spec fn awaits(self, input: InputView) -> bool {
        match self.phase {
            PhaseView::Ready | PhaseView::Calling => input is Continue,
            PhaseView::Answering => input is Event || input is StreamFailed || input is StreamEnded,
            PhaseView::Checking(_) => input is Requirement,
            PhaseView::Asking(_) => input is Permission,
            PhaseView::Executing(_) => input is ToolReturned || input is ToolFailed,
            PhaseView::Over => false,
        }
    }

    /// What came of the run, where it ends here.
    pub open spec fn run(self) -> AgentRunView {
        AgentRunView {
            messages: self.messages,
            stopped_at_turn_limit: self.turn >= self.config.max_turns,
        }
    }

    /// The run ends well, after some last events.
    pub open spec fn finish(self, events: Seq<AgentEventView>) -> (LoopView, MomentView) {
        (
            LoopView { phase: PhaseView::Over, ..self },
            MomentView {
                events: events.push(AgentEventView::AgentEnd { messages: self.messages }),
                action: ActionView::Finish(self.run()),
            },
        )
    }

    /// The run fails.
    pub open spec fn fail(self, error: AgentErrorView) -> (LoopView, MomentView) {
        (
            LoopView { phase: PhaseView::Over, ..self },
            MomentView { events: Seq::empty(), action: ActionView::Fail(error) },
        )
    }

    /// The next turn begins, or the run ends where there are no more turns.
    pub open spec fn begin_turn(self) -> (LoopView, MomentView) {
        if self.turn < self.config.max_turns {
            let turn = (self.turn + 1) as u32;
            (
                LoopView { turn, phase: PhaseView::Answering, ..self },
                MomentView {
                    events: seq![AgentEventView::TurnStart],
                    action: ActionView::CallModel {
                        turn,
                        context: context_of(self.config, self.messages),
                        options: options_of(self.config),
                    },
                },
            )
        } else {
            self.finish(Seq::empty())
        }
    }

    /// The answer is there. Its calls are next, where it asks for any; otherwise
    /// the run ends.
    pub open spec fn answered(self, reason: StopReason, message: AssistantView) -> (
        LoopView,
        MomentView,
    ) {
        let calls = calls_of(message.content);
        let answer = MessageView::Assistant(message);
        let told = AgentEventView::AssistantMessage { message: answer };
        let next = LoopView { messages: self.messages.push(answer), ..self };
        if calls.len() == 0 || reason != StopReason::ToolUse {
            next.finish(seq![told, AgentEventView::TurnEnd])
        } else {
            (
                LoopView {
                    waiting: calls,
                    all_terminate: true,
                    phase: PhaseView::Calling,
                    ..next
                },
                MomentView { events: seq![told], action: ActionView::Continue },
            )
        }
    }

    /// An event of the answer.
    pub open spec fn heard(self, event: EventView) -> (LoopView, MomentView) {
        match event {
            EventView::Done { reason, message } => self.answered(reason, message),
            EventView::Error { error, .. } => self.fail(
                AgentErrorView::Other(
                    match error.error_message {
                        Some(reason) => reason,
                        None => "provider error"@,
                    },
                ),
            ),
            EventView::TextDelta { delta, .. } => (
                self,
                MomentView {
                    events: seq![AgentEventView::TextDelta { delta }],
                    action: ActionView::ReadStream,
                },
            ),
            EventView::ThinkingDelta { delta, .. } => (
                self,
                MomentView {
                    events: seq![AgentEventView::ThinkingDelta { delta }],
                    action: ActionView::ReadStream,
                },
            ),
            _ => (self, MomentView { events: Seq::empty(), action: ActionView::ReadStream }),
        }
    }

    /// A call has its result, which goes into the transcript.
    pub open spec fn settled(
        self,
        call: CallView,
        content: Seq<ContentView>,
        is_error: bool,
        terminate: bool,
        now: u64,
    ) -> LoopView {
        LoopView {
            messages: self.messages.push(
                MessageView::ToolResult(
                    ToolResultView {
                        tool_call_id: call.id,
                        tool_name: call.name,
                        content,
                        is_error,
                        timestamp: now,
                    },
                ),
            ),
            all_terminate: self.all_terminate && terminate,
            phase: PhaseView::Calling,
            ..self
        }
    }

    /// The tool of a call has come to its end.
    pub open spec fn executed(
        self,
        before: Seq<AgentEventView>,
        call: CallView,
        content: Seq<ContentView>,
        is_error: bool,
        terminate: bool,
        now: u64,
    ) -> (LoopView, MomentView) {
        (
            self.settled(call, content, is_error, terminate, now),
            MomentView {
                events: before.push(
                    AgentEventView::ToolExecutionEnd {
                        tool_call_id: call.id,
                        tool_name: call.name,
                        is_error,
                        content,
                    },
                ),
                action: ActionView::Continue,
            },
        )
    }

    /// A call begins. One of a tool that is not there ends at once.
    pub open spec fn execute(self, call: CallView, now: u64) -> (LoopView, MomentView) {
        let start = seq![
            AgentEventView::ToolExecutionStart {
                tool_call_id: call.id,
                tool_name: call.name,
                args: call.args,
            },
        ];
        match tool_named(self.config.tools, call.name) {
            Some(tool) => (
                LoopView { phase: PhaseView::Executing(call), ..self },
                MomentView {
                    events: start,
                    action: ActionView::Execute { tool, id: call.id, args: call.args },
                },
            ),
            None => self.executed(
                start,
                call,
                one_text("unknown tool: "@ + call.name),
                true,
                false,
                now,
            ),
        }
    }

    /// The next call of the turn, or the end of the turn after the last one. The
    /// run ends with the turn where every call asked for that.
    pub open spec fn next_call(self, now: u64) -> (LoopView, MomentView) {
        if self.waiting.len() == 0 {
            if self.all_terminate {
                self.finish(seq![AgentEventView::TurnEnd])
            } else {
                (
                    LoopView { phase: PhaseView::Ready, ..self },
                    MomentView {
                        events: seq![AgentEventView::TurnEnd],
                        action: ActionView::Continue,
                    },
                )
            }
        } else {
            let call = self.waiting[0];
            let rest = LoopView { waiting: self.waiting.drop_first(), ..self };
            match tool_named(self.config.tools, call.name) {
                Some(tool) => (
                    LoopView { phase: PhaseView::Checking(call), ..rest },
                    MomentView {
                        events: Seq::empty(),
                        action: ActionView::CheckTool { tool },
                    },
                ),
                None => rest.execute(call, now),
            }
        }
    }

    /// The tool of a call has said whether the call has to be permitted. One
    /// that is allowed for the run needs no other permission.
    pub open spec fn checked(self, call: CallView, required: bool, now: u64) -> (
        LoopView,
        MomentView,
    ) {
        if required && !self.allowed.contains(call.name) {
            (
                LoopView { phase: PhaseView::Asking(call), ..self },
                MomentView {
                    events: Seq::empty(),
                    action: ActionView::AskPermission { name: call.name, args: call.args },
                },
            )
        } else {
            self.execute(call, now)
        }
    }

    /// A call was permitted or denied. A denial goes back to the model.
    pub open spec fn decided(self, call: CallView, decision: DecisionView, now: u64) -> (
        LoopView,
        MomentView,
    ) {
        match decision {
            DecisionView::Allow => self.execute(call, now),
            DecisionView::AllowSession => LoopView {
                allowed: self.allowed.push(call.name),
                ..self
            }.execute(call, now),
            DecisionView::Deny { reason } => (
                self.settled(call, one_text("permission denied: "@ + reason), true, false, now),
                MomentView {
                    events: seq![
                        AgentEventView::PermissionDenied { tool_name: call.name, reason },
                    ],
                    action: ActionView::Continue,
                },
            ),
        }
    }

    /// What an input does to a run at a given time.
    pub open spec fn step(self, input: InputView, now: u64) -> (LoopView, MomentView) {
        match (self.phase, input) {
            (PhaseView::Ready, _) => self.begin_turn(),
            (PhaseView::Answering, InputView::Event(event)) => self.heard(event),
            (PhaseView::Answering, InputView::StreamFailed(error)) => self.fail(
                AgentErrorView::Provider(error),
            ),
            (PhaseView::Answering, _) => self.fail(
                AgentErrorView::Other("provider stream produced no terminal event"@),
            ),
            (PhaseView::Calling, _) => self.next_call(now),
            (PhaseView::Checking(call), InputView::Requirement(required)) => self.checked(
                call,
                required,
                now,
            ),
            (PhaseView::Asking(call), InputView::Permission(decision)) => self.decided(
                call,
                decision,
                now,
            ),
            (PhaseView::Executing(call), InputView::ToolReturned { content, terminate }) =>
            self.executed(Seq::empty(), call, content, false, terminate, now),
            (PhaseView::Executing(call), InputView::ToolFailed(reason)) => self.executed(
                Seq::empty(),
                call,
                one_text("tool error: "@ + reason),
                true,
                false,
                now,
            ),
            _ => (self, MomentView { events: Seq::empty(), action: ActionView::Continue }),
        }
    }
}

/// A run. It refers to its configuration and holds all the rest.
#[derive(Debug, PartialEq)]
pub struct AgentLoop<'a> {
    config: &'a AgentConfig,
    messages: Vec<Message>,
    turn: u32,
    allowed: Vec<String>,
    waiting: Vec<ToolCall>,
    all_terminate: bool,
    phase: Phase,
}

impl DeepView for Phase {
    type V = PhaseView;

    closed spec fn deep_view(&self) -> PhaseView {
        match *self {
            Phase::Ready => PhaseView::Ready,
            Phase::Answering => PhaseView::Answering,
            Phase::Calling => PhaseView::Calling,
            Phase::Checking(call) => PhaseView::Checking(call.deep_view()),
            Phase::Asking(call) => PhaseView::Asking(call.deep_view()),
            Phase::Executing(call) => PhaseView::Executing(call.deep_view()),
            Phase::Over => PhaseView::Over,
        }
    }
}

impl<'a> DeepView for AgentLoop<'a> {
    type V = LoopView;

    closed spec fn deep_view(&self) -> LoopView {
        LoopView {
            config: self.config.deep_view(),
            messages: self.messages.deep_view(),
            turn: self.turn,
            allowed: self.allowed.deep_view(),
            waiting: self.waiting.deep_view(),
            all_terminate: self.all_terminate,
            phase: self.phase.deep_view(),
        }
    }
}

/// The events at the start of a run: the last message that it starts from, and
/// that it starts.
pub open spec fn first_events(messages: Seq<MessageView>) -> Seq<AgentEventView> {
    if messages.len() > 0 {
        seq![
            AgentEventView::UserMessage { message: messages.last() },
            AgentEventView::AgentStart,
        ]
    } else {
        seq![AgentEventView::AgentStart]
    }
}

/// Starts a run from one message.
pub fn run_agent<'a>(config: &'a AgentConfig, initial_prompt: Message) -> (out: (
    AgentLoop<'a>,
    Vec<AgentEvent>,
))
    ensures
        out.0.deep_view() == LoopView::fresh(
            config.deep_view(),
            seq![initial_prompt.deep_view()],
        ),
        out.1.deep_view() == seq![
            AgentEventView::UserMessage { message: initial_prompt.deep_view() },
            AgentEventView::AgentStart,
        ],
{
    let mut messages: Vec<Message> = Vec::new();
    messages.push(initial_prompt);
    assert(messages.deep_view() =~= seq![initial_prompt.deep_view()]);
    run_agent_with_history(config, messages)
}

/// Starts a run from a transcript, which it continues.
pub fn run_agent_with_history<'a>(config: &'a AgentConfig, messages: Vec<Message>) -> (out: (
    AgentLoop<'a>,
    Vec<AgentEvent>,
))
    ensures
        out.0.deep_view() == LoopView::fresh(config.deep_view(), messages.deep_view()),
        out.1.deep_view() == first_events(messages.deep_view()),
{
    let mut events: Vec<AgentEvent> = Vec::new();
    if messages.len() > 0 {
        let last = messages[messages.len() - 1].clone();
        assert(messages.deep_view().last() == last.deep_view());
        events.push(AgentEvent::UserMessage { message: last });
    }
    events.push(AgentEvent::AgentStart);
    assert(events.deep_view() =~= first_events(messages.deep_view()));
    let run = AgentLoop {
        config,
        messages,
        turn: 0,
        allowed: Vec::new(),
        waiting: Vec::new(),
        all_terminate: false,
        phase: Phase::Ready,
    };
    assert(run.allowed.deep_view() =~= Seq::<Seq<char>>::empty());
    assert(run.waiting.deep_view() =~= Seq::<CallView>::empty());
    (run, events)
}

fn collect_calls(content: &Vec<Content>) -> (calls: Vec<ToolCall>)
    ensures
        calls.deep_view() == calls_of(content.deep_view()),
{
    let ghost all = content.deep_view();
    let mut calls: Vec<ToolCall> = Vec::new();
    assert(calls.deep_view() =~= Seq::<CallView>::empty());
    for i in 0..content.len()
        invariant
            all == content.deep_view(),
            calls.deep_view() == calls_of(all.take(i as int)),
    {
        assert(all.take(i + 1).drop_last() =~= all.take(i as int));
        assert(all[i as int] == content@[i as int].deep_view());
        match &content[i] {
            Content::ToolCall { id, name, arguments } => {
                let ghost before = calls.deep_view();
                let call = ToolCall {
                    id: id.clone(),
                    name: name.clone(),
                    args: arguments.clone(),
                };
                calls.push(call);
                assert(calls.deep_view() =~= before.push(call.deep_view()));
            },
            _ => {},
        }
    }
    assert(all.take(all.len() as int) =~= all);
    calls
}

fn find_tool(tools: &Vec<Tool>, name: &str) -> (at: Option<usize>)
    ensures
        match at {
            Some(at) => tool_named(tools.deep_view(), name@) == Some(at as int) && at
                < tools@.len(),
            None => tool_named(tools.deep_view(), name@) is None,
        },
{
    let ghost all = tools.deep_view();
    let mut i: usize = tools.len();
    assert(all.take(i as int) =~= all);
    while i > 0
        invariant
            i <= tools@.len(),
            all == tools.deep_view(),
            tool_named(all, name@) == tool_named(all.take(i as int), name@),
        decreases i,
    {
        let ghost front = all.take(i as int);
        i = i - 1;
        assert(front.drop_last() =~= all.take(i as int));
        assert(front.last() == tools@[i as int].deep_view());
        if crate::text::same(tools[i].name.as_str(), name) {
            return Some(i);
        }
    }
    None
}

fn is_allowed(allowed: &Vec<String>, name: &str) -> (yes: bool)
    ensures
        yes == allowed.deep_view().contains(name@),
{
    let ghost all = allowed.deep_view();
    for i in 0..allowed.len()
        invariant
            all == allowed.deep_view(),
            forall|j: int| 0 <= j < i ==> all[j] != name@,
    {
        if crate::text::same(allowed[i].as_str(), name) {
            assert(all[i as int] == name@);
            return true;
        }
        assert(all[i as int] == allowed@[i as int]@);
    }
    false
}

fn single_text(start: &str, rest: &str) -> (content: Vec<Content>)
    ensures
        content.deep_view() == one_text(start@ + rest@),
{
    let text = start.to_owned().concat(rest);
    let mut content: Vec<Content> = Vec::new();
    content.push(Content::Text { text });
    assert(content.deep_view() =~= one_text(start@ + rest@));
    content
}

fn copy_messages(messages: &Vec<Message>) -> (copy: Vec<Message>)
    ensures
        copy.deep_view() == messages.deep_view(),
{
    let copy = messages.clone();
    assert(copy.deep_view() =~= messages.deep_view());
    copy
}

fn build_context(config: &AgentConfig, messages: &Vec<Message>) -> (context: Context)
    ensures
        context.deep_view() == context_of(config.deep_view(), messages.deep_view()),
{
    let tools = config.tools.clone();
    assert(tools.deep_view() =~= config.tools.deep_view());
    Context {
        system_prompt: Some(config.system_prompt.clone()),
        messages: copy_messages(messages),
        tools,
    }
}

fn build_options(config: &AgentConfig) -> (options: StreamOptions)
    ensures
        options.deep_view() == options_of(config.deep_view()),
{
    let mut options = config.stream_options.clone();
    if options.reasoning.is_none() && config.thinking_level != ThinkingLevel::Off {
        options.reasoning = Some(config.thinking_level);
    }
    options
}

fn say(event: AgentEvent, action: Action) -> (moment: Moment)
    ensures
        moment.deep_view() == (MomentView {
            events: seq![event.deep_view()],
            action: action.deep_view(),
        }),
{
    let mut events: Vec<AgentEvent> = Vec::new();
    events.push(event);
    assert(events.deep_view() =~= seq![event.deep_view()]);
    Moment { events, action }
}

fn say_nothing(action: Action) -> (moment: Moment)
    ensures
        moment.deep_view() == (MomentView { events: Seq::empty(), action: action.deep_view() }),
{
    let events: Vec<AgentEvent> = Vec::new();
    assert(events.deep_view() =~= Seq::<AgentEventView>::empty());
    Moment { events, action }
}

fn add_event(events: &mut Vec<AgentEvent>, event: AgentEvent)
    ensures
        final(events).deep_view() == old(events).deep_view().push(event.deep_view()),
{
    events.push(event);
    assert(events.deep_view() =~= old(events).deep_view().push(event.deep_view()));
}

impl<'a> AgentLoop<'a> {
    /// Whether the run can take an input where it stands.
    pub fn accepts(&self, input: &Input) -> (yes: bool)
        ensures
            yes == self.deep_view().awaits(input.deep_view()),
    {
        match (&self.phase, input) {
            (Phase::Ready, Input::Continue) => true,
            (Phase::Calling, Input::Continue) => true,
            (Phase::Answering, Input::Event(_)) => true,
            (Phase::Answering, Input::StreamFailed(_)) => true,
            (Phase::Answering, Input::StreamEnded) => true,
            (Phase::Checking(_), Input::Requirement(_)) => true,
            (Phase::Asking(_), Input::Permission(_)) => true,
            (Phase::Executing(_), Input::ToolReturned { .. }) => true,
            (Phase::Executing(_), Input::ToolFailed(_)) => true,
            _ => false,
        }
    }

    fn finish(&mut self, events: Vec<AgentEvent>) -> (moment: Moment)
        ensures
            (final(self).deep_view(), moment.deep_view()) == old(self).deep_view().finish(
                events.deep_view(),
            ),
    {
        self.phase = Phase::Over;
        let mut events = events;
        add_event(&mut events, AgentEvent::AgentEnd { messages: copy_messages(&self.messages) });
        Moment {
            events,
            action: Action::Finish(
                AgentRun {
                    messages: copy_messages(&self.messages),
                    stopped_at_turn_limit: self.turn >= self.config.max_turns,
                },
            ),
        }
    }

    fn fail(&mut self, error: AgentError) -> (moment: Moment)
        ensures
            (final(self).deep_view(), moment.deep_view()) == old(self).deep_view().fail(
                error.deep_view(),
            ),
    {
        self.phase = Phase::Over;
        say_nothing(Action::Fail(error))
    }

    fn begin_turn(&mut self) -> (moment: Moment)
        ensures
            (final(self).deep_view(), moment.deep_view()) == old(self).deep_view().begin_turn(),
    {
        if self.turn < self.config.max_turns {
            self.turn = self.turn + 1;
            self.phase = Phase::Answering;
            say(
                AgentEvent::TurnStart,
                Action::CallModel {
                    turn: self.turn,
                    context: build_context(self.config, &self.messages),
                    options: build_options(self.config),
                },
            )
        } else {
            let events: Vec<AgentEvent> = Vec::new();
            assert(events.deep_view() =~= Seq::<AgentEventView>::empty());
            self.finish(events)
        }
    }

    fn add_message(&mut self, message: Message)
        ensures
            final(self).deep_view() == (LoopView {
                messages: old(self).deep_view().messages.push(message.deep_view()),
                ..old(self).deep_view()
            }),
    {
        self.messages.push(message);
        assert(self.messages.deep_view() =~= old(self).messages.deep_view().push(
            message.deep_view(),
        ));
    }

    fn answered(&mut self, reason: StopReason, message: AssistantMessage) -> (moment: Moment)
        ensures
            (final(self).deep_view(), moment.deep_view()) == old(self).deep_view().answered(
                reason,
                message.deep_view(),
            ),
    {
        let calls = collect_calls(&message.content);
        let answer = Message::Assistant(message);
        let told = AgentEvent::AssistantMessage { message: answer.clone() };
        self.add_message(answer);
        if calls.len() == 0 || reason != StopReason::ToolUse {
            let mut events: Vec<AgentEvent> = Vec::new();
            events.push(told);
            events.push(AgentEvent::TurnEnd);
            assert(events.deep_view() =~= seq![told.deep_view(), AgentEventView::TurnEnd]);
            self.finish(events)
        } else {
            self.waiting = calls;
            self.all_terminate = true;
            self.phase = Phase::Calling;
            say(told, Action::Continue)
        }
    }

    fn heard(&mut self, event: AssistantMessageEvent) -> (moment: Moment)
        ensures
            (final(self).deep_view(), moment.deep_view()) == old(self).deep_view().heard(
                event.deep_view(),
            ),
    {
        match event {
            AssistantMessageEvent::Done { reason, message } => self.answered(reason, message),
            AssistantMessageEvent::Error { reason: _, error } => {
                let reason = match error.error_message {
                    Some(reason) => reason,
                    None => "provider error".to_owned(),
                };
                self.fail(AgentError::Other(reason))
            },
            AssistantMessageEvent::TextDelta { content_index: _, delta } => say(
                AgentEvent::TextDelta { delta },
                Action::ReadStream,
            ),
            AssistantMessageEvent::ThinkingDelta { content_index: _, delta } => say(
                AgentEvent::ThinkingDelta { delta },
                Action::ReadStream,
            ),
            _ => say_nothing(Action::ReadStream),
        }
    }

    fn settle(
        &mut self,
        call: ToolCall,
        content: Vec<Content>,
        is_error: bool,
        terminate: bool,
        now: u64,
    )
        ensures
            final(self).deep_view() == old(self).deep_view().settled(
                call.deep_view(),
                content.deep_view(),
                is_error,
                terminate,
                now,
            ),
    {
        self.all_terminate = self.all_terminate && terminate;
        self.phase = Phase::Calling;
        self.add_message(
            Message::ToolResult(
                ToolResultMessage {
                    tool_call_id: call.id,
                    tool_name: call.name,
                    content,
                    is_error,
                    timestamp: now,
                },
            ),
        );
    }

    fn executed(
        &mut self,
        before: Vec<AgentEvent>,
        call: ToolCall,
        content: Vec<Content>,
        is_error: bool,
        terminate: bool,
        now: u64,
    ) -> (moment: Moment)
        ensures
            (final(self).deep_view(), moment.deep_view()) == old(self).deep_view().executed(
                before.deep_view(),
                call.deep_view(),
                content.deep_view(),
                is_error,
                terminate,
                now,
            ),
    {
        let mut events = before;
        let shown = content.clone();
        assert(shown.deep_view() =~= content.deep_view());
        add_event(
            &mut events,
            AgentEvent::ToolExecutionEnd {
                tool_call_id: call.id.clone(),
                tool_name: call.name.clone(),
                is_error,
                content: shown,
            },
        );
        self.settle(call, content, is_error, terminate, now);
        Moment { events, action: Action::Continue }
    }

    fn execute(&mut self, call: ToolCall, now: u64) -> (moment: Moment)
        ensures
            (final(self).deep_view(), moment.deep_view()) == old(self).deep_view().execute(
                call.deep_view(),
                now,
            ),
    {
        let start = AgentEvent::ToolExecutionStart {
            tool_call_id: call.id.clone(),
            tool_name: call.name.clone(),
            args: call.args.clone(),
        };
        match find_tool(&self.config.tools, call.name.as_str()) {
            Some(tool) => {
                let action = Action::Execute {
                    tool,
                    id: call.id.clone(),
                    args: call.args.clone(),
                };
                self.phase = Phase::Executing(call);
                say(start, action)
            },
            None => {
                let content = single_text("unknown tool: ", call.name.as_str());
                let mut before: Vec<AgentEvent> = Vec::new();
                before.push(start);
                assert(before.deep_view() =~= seq![start.deep_view()]);
                self.executed(before, call, content, true, false, now)
            },
        }
    }

    fn next_call(&mut self, now: u64) -> (moment: Moment)
        ensures
            (final(self).deep_view(), moment.deep_view()) == old(self).deep_view().next_call(now),
    {
        if self.waiting.len() == 0 {
            if self.all_terminate {
                let mut events: Vec<AgentEvent> = Vec::new();
                events.push(AgentEvent::TurnEnd);
                assert(events.deep_view() =~= seq![AgentEventView::TurnEnd]);
                self.finish(events)
            } else {
                self.phase = Phase::Ready;
                say(AgentEvent::TurnEnd, Action::Continue)
            }
        } else {
            let call = self.waiting.remove(0);
            assert(call.deep_view() == old(self).waiting.deep_view()[0]);
            assert(self.waiting.deep_view() =~= old(self).waiting.deep_view().drop_first());
            match find_tool(&self.config.tools, call.name.as_str()) {
                Some(tool) => {
                    self.phase = Phase::Checking(call);
                    say_nothing(Action::CheckTool { tool })
                },
                None => self.execute(call, now),
            }
        }
    }

    fn checked(&mut self, call: ToolCall, required: bool, now: u64) -> (moment: Moment)
        ensures
            (final(self).deep_view(), moment.deep_view()) == old(self).deep_view().checked(
                call.deep_view(),
                required,
                now,
            ),
    {
        if required && !is_allowed(&self.allowed, call.name.as_str()) {
            let action = Action::AskPermission {
                name: call.name.clone(),
                args: call.args.clone(),
            };
            self.phase = Phase::Asking(call);
            say_nothing(action)
        } else {
            self.execute(call, now)
        }
    }

    fn decided(&mut self, call: ToolCall, decision: PermissionDecision, now: u64) -> (moment:
        Moment)
        ensures
            (final(self).deep_view(), moment.deep_view()) == old(self).deep_view().decided(
                call.deep_view(),
                decision.deep_view(),
                now,
            ),
    {
        match decision {
            PermissionDecision::Allow => self.execute(call, now),
            PermissionDecision::AllowSession => {
                self.allowed.push(call.name.clone());
                assert(self.allowed.deep_view() =~= old(self).allowed.deep_view().push(
                    call.name@,
                ));
                self.execute(call, now)
            },
            PermissionDecision::Deny { reason } => {
                let content = single_text("permission denied: ", reason.as_str());
                let tool_name = call.name.clone();
                self.settle(call, content, true, false, now);
                say(AgentEvent::PermissionDenied { tool_name, reason }, Action::Continue)
            },
        }
    }

    /// Takes an input that the run is waiting for. What happens depends on the
    /// state alone, on the input, and on the time, which dates tool results.
    pub fn step(&mut self, input: Input, now: u64) -> (moment: Moment)
        requires
            old(self).deep_view().awaits(input.deep_view()),
        ensures
            (final(self).deep_view(), moment.deep_view()) == old(self).deep_view().step(
                input.deep_view(),
                now,
            ),
    {
        let mut phase = Phase::Over;
        std::mem::swap(&mut phase, &mut self.phase);
        match (phase, input) {
            (Phase::Ready, Input::Continue) => {
                self.phase = Phase::Ready;
                self.begin_turn()
            },
            (Phase::Answering, Input::Event(event)) => {
                self.phase = Phase::Answering;
                self.heard(event)
            },
            (Phase::Answering, Input::StreamFailed(error)) => self.fail(
                AgentError::Provider(error),
            ),
            (Phase::Answering, Input::StreamEnded) => self.fail(
                AgentError::Other("provider stream produced no terminal event".to_owned()),
            ),
            (Phase::Calling, Input::Continue) => {
                self.phase = Phase::Calling;
                self.next_call(now)
            },
            (Phase::Checking(call), Input::Requirement(required)) => self.checked(
                call,
                required,
                now,
            ),
            (Phase::Asking(call), Input::Permission(decision)) => self.decided(
                call,
                decision,
                now,
            ),
            (Phase::Executing(call), Input::ToolReturned { content, terminate }) => {
                let before: Vec<AgentEvent> = Vec::new();
                assert(before.deep_view() =~= Seq::<AgentEventView>::empty());
                self.executed(before, call, content, false, terminate, now)
            },
            (Phase::Executing(call), Input::ToolFailed(reason)) => {
                let before: Vec<AgentEvent> = Vec::new();
                assert(before.deep_view() =~= Seq::<AgentEventView>::empty());
                let content = single_text("tool error: ", reason.as_str());
                self.executed(before, call, content, true, false, now)
            },
            _ => say_nothing(Action::Continue),
        }
    }
}

} // verus!
