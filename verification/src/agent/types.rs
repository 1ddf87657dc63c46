//! What a run is given, what it tells, and what it hands out and takes back.

use vstd::prelude::*;

use crate::json::{Json, JsonView};
use crate::types::{
    AssistantMessageEvent, Content, ContentView, Context, ContextView, EventView, Message,
    MessageView, Model, ModelView, OptionsView, StreamError, StreamErrorView, StreamOptions,
    ThinkingLevel, Tool, ToolView,
};

verus! {

/// What a run is given.
#[derive(Debug, PartialEq)]
pub struct AgentConfig {
    pub model: Model,
    pub system_prompt: String,
    /// The tools that a run may use.
    pub tools: Vec<Tool>,
    pub stream_options: StreamOptions,
    pub thinking_level: ThinkingLevel,
    pub max_turns: u32,
}

/// What came of a run.
#[derive(Debug, PartialEq)]
pub struct AgentRun {
    pub messages: Vec<Message>,
    pub stopped_at_turn_limit: bool,
}

/// Why a run failed.
#[derive(Debug, PartialEq)]
pub enum AgentError {
    Provider(StreamError),
    Other(String),
}

/// What a run tells while it goes on.
#[derive(Debug, PartialEq)]
pub enum AgentEvent {
    UserMessage { message: Message },
    AgentStart,
    TurnStart,
    TextDelta { delta: String },
    ThinkingDelta { delta: String },
    AssistantMessage { message: Message },
    PermissionDenied { tool_name: String, reason: String },
    ToolExecutionStart { tool_call_id: String, tool_name: String, args: Json },
    ToolExecutionEnd {
        tool_call_id: String,
        tool_name: String,
        is_error: bool,
        content: Vec<Content>,
    },
    TurnEnd,
    AgentEnd { messages: Vec<Message> },
}

/// Whether a tool may be used.
#[derive(Debug, PartialEq)]
pub enum PermissionDecision {
    /// This once.
    Allow,
    /// For the rest of the run.
    AllowSession,
    /// Not this time.
    Deny { reason: String },
}

/// A tool call that a model asked for.
#[derive(Debug, PartialEq)]
pub struct ToolCall {
    pub id: String,
    pub name: String,
    pub args: Json,
}

/// What a run takes back.
#[derive(Debug, PartialEq)]
pub enum Input {
    /// Nothing: the run may go on.
    Continue,
    /// An event of the answer of the model.
    Event(AssistantMessageEvent),
    /// The answer of the model failed.
    StreamFailed(StreamError),
    /// The answer of the model is over.
    StreamEnded,
    /// Whether the tool says that this use has to be permitted.
    Requirement(bool),
    /// Whether the tool may be used.
    Permission(PermissionDecision),
    /// What the tool gave back, and whether it asks to end the run.
    ToolReturned { content: Vec<Content>, terminate: bool },
    /// The tool failed, for the given reason.
    ToolFailed(String),
}

/// What a run hands out to be done next.
#[derive(Debug, PartialEq)]
pub enum Action {
    /// Nothing: the run goes on.
    Continue,
    /// Ask the model, in the given turn.
    CallModel { turn: u32, context: Context, options: StreamOptions },
    /// Read on in the answer of the model.
    ReadStream,
    /// Ask the tool at the given place in the configuration whether its use has
    /// to be permitted.
    CheckTool { tool: usize },
    /// Ask whether a tool may be used.
    AskPermission { name: String, args: Json },
    /// Use the tool at the given place in the configuration.
    Execute { tool: usize, id: String, args: Json },
    /// The run is over.
    Finish(AgentRun),
    /// The run has failed.
    Fail(AgentError),
}

/// What a run tells, and what is to be done next.
#[derive(Debug, PartialEq)]
pub struct Moment {
    pub events: Vec<AgentEvent>,
    pub action: Action,
}

/// The model of [`AgentConfig`].
pub struct ConfigView {
    pub model: ModelView,
    pub system_prompt: Seq<char>,
    pub tools: Seq<ToolView>,
    pub stream_options: OptionsView,
    pub thinking_level: ThinkingLevel,
    pub max_turns: u32,
}

/// The model of [`AgentRun`].
pub struct AgentRunView {
    pub messages: Seq<MessageView>,
    pub stopped_at_turn_limit: bool,
}

/// The model of [`AgentError`].
pub enum AgentErrorView {
    Provider(StreamErrorView),
    Other(Seq<char>),
}

/// The model of [`AgentEvent`].
pub enum AgentEventView {
    UserMessage { message: MessageView },
    AgentStart,
    TurnStart,
    TextDelta { delta: Seq<char> },
    ThinkingDelta { delta: Seq<char> },
    AssistantMessage { message: MessageView },
    PermissionDenied { tool_name: Seq<char>, reason: Seq<char> },
    ToolExecutionStart { tool_call_id: Seq<char>, tool_name: Seq<char>, args: JsonView },
    ToolExecutionEnd {
        tool_call_id: Seq<char>,
        tool_name: Seq<char>,
        is_error: bool,
        content: Seq<ContentView>,
    },
    TurnEnd,
    AgentEnd { messages: Seq<MessageView> },
}

/// The model of [`PermissionDecision`].
pub enum DecisionView {
    Allow,
    AllowSession,
    Deny { reason: Seq<char> },
}

/// The model of [`ToolCall`].
pub struct CallView {
    pub id: Seq<char>,
    pub name: Seq<char>,
    pub args: JsonView,
}

/// The model of [`Input`].
pub enum InputView {
    Continue,
    Event(EventView),
    StreamFailed(StreamErrorView),
    StreamEnded,
    Requirement(bool),
    Permission(DecisionView),
    ToolReturned { content: Seq<ContentView>, terminate: bool },
    ToolFailed(Seq<char>),
}

/// The model of [`Action`].
pub enum ActionView {
    Continue,
    CallModel { turn: u32, context: ContextView, options: OptionsView },
    ReadStream,
    CheckTool { tool: int },
    AskPermission { name: Seq<char>, args: JsonView },
    Execute { tool: int, id: Seq<char>, args: JsonView },
    Finish(AgentRunView),
    Fail(AgentErrorView),
}

/// The model of [`Moment`].
pub struct MomentView {
    pub events: Seq<AgentEventView>,
    pub action: ActionView,
}

impl DeepView for AgentConfig {
    type V = ConfigView;

    open spec fn deep_view(&self) -> ConfigView {
        ConfigView {
            model: self.model.deep_view(),
            system_prompt: self.system_prompt@,
            tools: self.tools.deep_view(),
            stream_options: self.stream_options.deep_view(),
            thinking_level: self.thinking_level,
            max_turns: self.max_turns,
        }
    }
}

impl DeepView for AgentRun {
    type V = AgentRunView;

    open spec fn deep_view(&self) -> AgentRunView {
        AgentRunView {
            messages: self.messages.deep_view(),
            stopped_at_turn_limit: self.stopped_at_turn_limit,
        }
    }
}

impl DeepView for AgentError {
    type V = AgentErrorView;

    open spec fn deep_view(&self) -> AgentErrorView {
        match *self {
            AgentError::Provider(error) => AgentErrorView::Provider(error.deep_view()),
            AgentError::Other(reason) => AgentErrorView::Other(reason@),
        }
    }
}

impl DeepView for AgentEvent {
    type V = AgentEventView;

    open spec fn deep_view(&self) -> AgentEventView {
        match *self {
            AgentEvent::UserMessage { message } => AgentEventView::UserMessage {
                message: message.deep_view(),
            },
            AgentEvent::AgentStart => AgentEventView::AgentStart,
            AgentEvent::TurnStart => AgentEventView::TurnStart,
            AgentEvent::TextDelta { delta } => AgentEventView::TextDelta { delta: delta@ },
            AgentEvent::ThinkingDelta { delta } => AgentEventView::ThinkingDelta { delta: delta@ },
            AgentEvent::AssistantMessage { message } => AgentEventView::AssistantMessage {
                message: message.deep_view(),
            },
            AgentEvent::PermissionDenied { tool_name, reason } => AgentEventView::PermissionDenied {
                tool_name: tool_name@,
                reason: reason@,
            },
            AgentEvent::ToolExecutionStart { tool_call_id, tool_name, args } =>
            AgentEventView::ToolExecutionStart {
                tool_call_id: tool_call_id@,
                tool_name: tool_name@,
                args: args@,
            },
            AgentEvent::ToolExecutionEnd { tool_call_id, tool_name, is_error, content } =>
            AgentEventView::ToolExecutionEnd {
                tool_call_id: tool_call_id@,
                tool_name: tool_name@,
                is_error,
                content: content.deep_view(),
            },
            AgentEvent::TurnEnd => AgentEventView::TurnEnd,
            AgentEvent::AgentEnd { messages } => AgentEventView::AgentEnd {
                messages: messages.deep_view(),
            },
        }
    }
}

impl DeepView for PermissionDecision {
    type V = DecisionView;

    open spec fn deep_view(&self) -> DecisionView {
        match *self {
            PermissionDecision::Allow => DecisionView::Allow,
            PermissionDecision::AllowSession => DecisionView::AllowSession,
            PermissionDecision::Deny { reason } => DecisionView::Deny { reason: reason@ },
        }
    }
}

impl DeepView for ToolCall {
    type V = CallView;

    open spec fn deep_view(&self) -> CallView {
        CallView { id: self.id@, name: self.name@, args: self.args@ }
    }
}

impl DeepView for Input {
    type V = InputView;

    open spec fn deep_view(&self) -> InputView {
        match *self {
            Input::Continue => InputView::Continue,
            Input::Event(event) => InputView::Event(event.deep_view()),
            Input::StreamFailed(error) => InputView::StreamFailed(error.deep_view()),
            Input::StreamEnded => InputView::StreamEnded,
            Input::Requirement(required) => InputView::Requirement(required),
            Input::Permission(decision) => InputView::Permission(decision.deep_view()),
            Input::ToolReturned { content, terminate } => InputView::ToolReturned {
                content: content.deep_view(),
                terminate,
            },
            Input::ToolFailed(reason) => InputView::ToolFailed(reason@),
        }
    }
}

impl DeepView for Action {
    type V = ActionView;

    open spec fn deep_view(&self) -> ActionView {
        match *self {
            Action::Continue => ActionView::Continue,
            Action::CallModel { turn, context, options } => ActionView::CallModel {
                turn,
                context: context.deep_view(),
                options: options.deep_view(),
            },
            Action::ReadStream => ActionView::ReadStream,
            Action::CheckTool { tool } => ActionView::CheckTool { tool: tool as int },
            Action::AskPermission { name, args } => ActionView::AskPermission {
                name: name@,
                args: args@,
            },
            Action::Execute { tool, id, args } => ActionView::Execute {
                tool: tool as int,
                id: id@,
                args: args@,
            },
            Action::Finish(run) => ActionView::Finish(run.deep_view()),
            Action::Fail(error) => ActionView::Fail(error.deep_view()),
        }
    }
}

impl DeepView for Moment {
    type V = MomentView;

    open spec fn deep_view(&self) -> MomentView {
        MomentView { events: self.events.deep_view(), action: self.action.deep_view() }
    }
}

} // verus!
