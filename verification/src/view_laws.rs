//! What the models of the types keep of them: everything.

use vstd::prelude::*;

use crate::agent::types::{
    Action, ActionView, AgentConfig, AgentError, AgentErrorView, AgentEvent, AgentEventView,
    AgentRun, DecisionView, Input, InputView, Moment, PermissionDecision, ToolCall,
};
use crate::providers::anthropic_events::{
    BlockDelta, BlockDeltaView, BlockStart, BlockStartView, SseEvent, SseEventView,
};
use crate::providers::google_events::{Candidate, Chunk, FunctionCall, Part};
use crate::providers::openai_responses_events::{
    DeltaEnvelope, OutputItem, ResponsesEvent, ResponsesEventView,
};
use crate::providers::request::{Attempt, AttemptView, ProviderRequest, Sent, SentView};
use crate::providers::stream::{Incoming, IncomingView, Next, NextView, Step};
use crate::types::{
    AssistantMessage, AssistantMessageEvent, Content, ContentView, Context, EventView, Message,
    MessageView, Model, StreamError, StreamErrorView, StreamOptions, Tool, ToolResultMessage,
};

verus! {

/// The model of [`Content`] keeps every variant with every field.
pub proof fn law_view_of_content(value: Content)
    ensures
        value.deep_view() == (match value {
            Content::Text { text } => ContentView::Text { text: text@ },
            Content::Thinking { thinking, thinking_signature } => ContentView::Thinking {
                thinking: thinking@,
                thinking_signature: thinking_signature.deep_view(),
            },
            Content::Image { data, mime_type } => ContentView::Image {
                data: data@,
                mime_type: mime_type@,
            },
            Content::ToolCall { id, name, arguments } => ContentView::ToolCall {
                id: id@,
                name: name@,
                arguments: arguments@,
            },
        }),
{
}

/// The model of [`AssistantMessage`] keeps every field.
pub proof fn law_view_of_assistant_message(value: AssistantMessage)
    ensures
        value.deep_view().content == value.content.deep_view(),
        value.deep_view().api == value.api@,
        value.deep_view().provider == value.provider@,
        value.deep_view().model == value.model@,
        value.deep_view().usage == value.usage,
        value.deep_view().stop_reason == value.stop_reason,
        value.deep_view().error_message == value.error_message.deep_view(),
        value.deep_view().timestamp == value.timestamp,
{
}

/// The model of [`ToolResultMessage`] keeps every field.
pub proof fn law_view_of_tool_result_message(value: ToolResultMessage)
    ensures
        value.deep_view().tool_call_id == value.tool_call_id@,
        value.deep_view().tool_name == value.tool_name@,
        value.deep_view().content == value.content.deep_view(),
        value.deep_view().is_error == value.is_error,
        value.deep_view().timestamp == value.timestamp,
{
}

/// The model of [`Message`] keeps every variant with every field.
pub proof fn law_view_of_message(value: Message)
    ensures
        value.deep_view() == (match value {
            Message::User { content, timestamp } => MessageView::User {
                content: content.deep_view(),
                timestamp,
            },
            Message::Assistant(message) => MessageView::Assistant(message.deep_view()),
            Message::ToolResult(result) => MessageView::ToolResult(result.deep_view()),
        }),
{
}

/// The model of [`Tool`] keeps every field.
pub proof fn law_view_of_tool(value: Tool)
    ensures
        value.deep_view().name == value.name@,
        value.deep_view().description == value.description@,
        value.deep_view().parameters == value.parameters@,
{
}

/// The model of [`Context`] keeps every field.
pub proof fn law_view_of_context(value: Context)
    ensures
        value.deep_view().system_prompt == value.system_prompt.deep_view(),
        value.deep_view().messages == value.messages.deep_view(),
        value.deep_view().tools == value.tools.deep_view(),
{
}

/// The model of [`Model`] keeps every field.
pub proof fn law_view_of_model(value: Model)
    ensures
        value.deep_view().id == value.id@,
        value.deep_view().provider == value.provider@,
        value.deep_view().api == value.api@,
        value.deep_view().base_url == value.base_url@,
        value.deep_view().max_tokens == value.max_tokens,
{
}

/// The model of [`StreamOptions`] keeps every field.
pub proof fn law_view_of_stream_options(value: StreamOptions)
    ensures
        value.deep_view().api_key == value.api_key.deep_view(),
        value.deep_view().base_url == value.base_url.deep_view(),
        value.deep_view().headers == value.headers@,
        value.deep_view().temperature == value.temperature.deep_view(),
        value.deep_view().max_tokens == value.max_tokens,
        value.deep_view().reasoning == value.reasoning,
        value.deep_view().cache_retention == value.cache_retention,
{
}

/// The model of [`AssistantMessageEvent`] keeps every variant with every field.
pub proof fn law_view_of_assistant_message_event(value: AssistantMessageEvent)
    ensures
        value.deep_view() == (match value {
            AssistantMessageEvent::Start => EventView::Start,
            AssistantMessageEvent::TextStart { content_index } => EventView::TextStart {
                content_index,
            },
            AssistantMessageEvent::TextDelta { content_index, delta } => EventView::TextDelta {
                content_index,
                delta: delta@,
            },
            AssistantMessageEvent::TextEnd { content_index, content } => EventView::TextEnd {
                content_index,
                content: content@,
            },
            AssistantMessageEvent::ThinkingStart { content_index } => EventView::ThinkingStart {
                content_index,
            },
            AssistantMessageEvent::ThinkingDelta { content_index, delta } =>
            EventView::ThinkingDelta { content_index, delta: delta@ },
            AssistantMessageEvent::ThinkingEnd { content_index, content } =>
            EventView::ThinkingEnd { content_index, content: content@ },
            AssistantMessageEvent::ToolCallStart { content_index, id, name } =>
            EventView::ToolCallStart { content_index, id: id@, name: name@ },
            AssistantMessageEvent::ToolCallDelta { content_index, delta } =>
            EventView::ToolCallDelta { content_index, delta: delta@ },
            AssistantMessageEvent::ToolCallEnd { content_index, id, name, arguments } =>
            EventView::ToolCallEnd {
                content_index,
                id: id@,
                name: name@,
                arguments: arguments@,
            },
            AssistantMessageEvent::Done { reason, message } => EventView::Done {
                reason,
                message: message.deep_view(),
            },
            AssistantMessageEvent::Error { reason, error } => EventView::Error {
                reason,
                error: error.deep_view(),
            },
        }),
{
}

/// The model of [`StreamError`] keeps every variant with every field.
pub proof fn law_view_of_stream_error(value: StreamError)
    ensures
        value.deep_view() == (match value {
            StreamError::MissingApiKey(provider) => StreamErrorView::MissingApiKey(provider@),
            StreamError::Http(reason) => StreamErrorView::Http(reason@),
            StreamError::ProviderError { status, body } => StreamErrorView::ProviderError {
                status,
                body: body@,
            },
            StreamError::InvalidResponse(reason) => StreamErrorView::InvalidResponse(reason@),
            StreamError::Cancelled => StreamErrorView::Cancelled,
        }),
{
}

/// The model of [`AgentConfig`] keeps every field.
pub proof fn law_view_of_agent_config(value: AgentConfig)
    ensures
        value.deep_view().model == value.model.deep_view(),
        value.deep_view().system_prompt == value.system_prompt@,
        value.deep_view().tools == value.tools.deep_view(),
        value.deep_view().stream_options == value.stream_options.deep_view(),
        value.deep_view().thinking_level == value.thinking_level,
        value.deep_view().max_turns == value.max_turns,
{
}

/// The model of [`AgentRun`] keeps every field.
pub proof fn law_view_of_agent_run(value: AgentRun)
    ensures
        value.deep_view().messages == value.messages.deep_view(),
        value.deep_view().stopped_at_turn_limit == value.stopped_at_turn_limit,
{
}

/// The model of [`AgentError`] keeps every variant with every field.
pub proof fn law_view_of_agent_error(value: AgentError)
    ensures
        value.deep_view() == (match value {
            AgentError::Provider(error) => AgentErrorView::Provider(error.deep_view()),
            AgentError::Other(reason) => AgentErrorView::Other(reason@),
        }),
{
}

/// The model of [`AgentEvent`] keeps every variant with every field.
pub proof fn law_view_of_agent_event(value: AgentEvent)
    ensures
        value.deep_view() == (match value {
            AgentEvent::UserMessage { message } => AgentEventView::UserMessage {
                message: message.deep_view(),
            },
            AgentEvent::AgentStart => AgentEventView::AgentStart,
            AgentEvent::TurnStart => AgentEventView::TurnStart,
            AgentEvent::TextDelta { delta } => AgentEventView::TextDelta { delta: delta@ },
            AgentEvent::ThinkingDelta { delta } => AgentEventView::ThinkingDelta { delta: delta@ },
            AgentEvent::AssistantMessage { message } => AgentEventView::AssistantMessage {
                message: message.deep_view(),
            },
            AgentEvent::PermissionDenied { tool_name, reason } => AgentEventView::PermissionDenied {
                tool_name: tool_name@,
                reason: reason@,
            },
            AgentEvent::ToolExecutionStart { tool_call_id, tool_name, args } =>
            AgentEventView::ToolExecutionStart {
                tool_call_id: tool_call_id@,
                tool_name: tool_name@,
                args: args@,
            },
            AgentEvent::ToolExecutionEnd { tool_call_id, tool_name, is_error, content } =>
            AgentEventView::ToolExecutionEnd {
                tool_call_id: tool_call_id@,
                tool_name: tool_name@,
                is_error,
                content: content.deep_view(),
            },
            AgentEvent::TurnEnd => AgentEventView::TurnEnd,
            AgentEvent::AgentEnd { messages } => AgentEventView::AgentEnd {
                messages: messages.deep_view(),
            },
        }),
{
}

/// The model of [`PermissionDecision`] keeps every variant with every field.
pub proof fn law_view_of_permission_decision(value: PermissionDecision)
    ensures
        value.deep_view() == (match value {
            PermissionDecision::Allow => DecisionView::Allow,
            PermissionDecision::AllowSession => DecisionView::AllowSession,
            PermissionDecision::Deny { reason } => DecisionView::Deny { reason: reason@ },
        }),
{
}

/// The model of [`ToolCall`] keeps every field.
pub proof fn law_view_of_tool_call(value: ToolCall)
    ensures
        value.deep_view().id == value.id@,
        value.deep_view().name == value.name@,
        value.deep_view().args == value.args@,
{
}

/// The model of [`Input`] keeps every variant with every field.
pub proof fn law_view_of_input(value: Input)
    ensures
        value.deep_view() == (match value {
            Input::Continue => InputView::Continue,
            Input::Event(event) => InputView::Event(event.deep_view()),
            Input::StreamFailed(error) => InputView::StreamFailed(error.deep_view()),
            Input::StreamEnded => InputView::StreamEnded,
            Input::Requirement(required) => InputView::Requirement(required),
            Input::Permission(decision) => InputView::Permission(decision.deep_view()),
            Input::ToolReturned { content, terminate } => InputView::ToolReturned {
                content: content.deep_view(),
                terminate,
            },
            Input::ToolFailed(reason) => InputView::ToolFailed(reason@),
        }),
{
}

/// The model of [`Action`] keeps every variant with every field.
pub proof fn law_view_of_action(value: Action)
    ensures
        value.deep_view() == (match value {
            Action::Continue => ActionView::Continue,
            Action::CallModel { turn, context, options } => ActionView::CallModel {
                turn,
                context: context.deep_view(),
                options: options.deep_view(),
            },
            Action::ReadStream => ActionView::ReadStream,
            Action::CheckTool { tool } => ActionView::CheckTool { tool: tool as int },
            Action::AskPermission { name, args } => ActionView::AskPermission {
                name: name@,
                args: args@,
            },
            Action::Execute { tool, id, args } => ActionView::Execute {
                tool: tool as int,
                id: id@,
                args: args@,
            },
            Action::Finish(run) => ActionView::Finish(run.deep_view()),
            Action::Fail(error) => ActionView::Fail(error.deep_view()),
        }),
{
}

/// The model of [`Moment`] keeps every field.
pub proof fn law_view_of_moment(value: Moment)
    ensures
        value.deep_view().events == value.events.deep_view(),
        value.deep_view().action == value.action.deep_view(),
{
}

/// The model of [`BlockStart`] keeps every variant with every field.
pub proof fn law_view_of_block_start(value: BlockStart)
    ensures
        value.deep_view() == (match value {
            BlockStart::Text => BlockStartView::Text,
            BlockStart::Thinking => BlockStartView::Thinking,
            BlockStart::ToolUse { id, name } => BlockStartView::ToolUse { id: id@, name: name@ },
            BlockStart::Other => BlockStartView::Other,
        }),
{
}

/// The model of [`BlockDelta`] keeps every variant with every field.
pub proof fn law_view_of_block_delta(value: BlockDelta)
    ensures
        value.deep_view() == (match value {
            BlockDelta::TextDelta { text } => BlockDeltaView::TextDelta { text: text@ },
            BlockDelta::ThinkingDelta { thinking } => BlockDeltaView::ThinkingDelta {
                thinking: thinking@,
            },
            BlockDelta::InputJsonDelta { partial_json } => BlockDeltaView::InputJsonDelta {
                partial_json: partial_json@,
            },
            BlockDelta::SignatureDelta { signature } => BlockDeltaView::SignatureDelta {
                signature: signature@,
            },
            BlockDelta::Other => BlockDeltaView::Other,
        }),
{
}

/// The model of [`SseEvent`] keeps every variant with every field.
pub proof fn law_view_of_sse_event(value: SseEvent)
    ensures
        value.deep_view() == (match value {
            SseEvent::MessageStart { model, usage } => SseEventView::MessageStart {
                model: model.deep_view(),
                usage,
            },
            SseEvent::ContentBlockStart { index, content_block } =>
            SseEventView::ContentBlockStart { index, content_block: content_block.deep_view() },
            SseEvent::ContentBlockDelta { index, delta } => SseEventView::ContentBlockDelta {
                index,
                delta: delta.deep_view(),
            },
            SseEvent::ContentBlockStop { index } => SseEventView::ContentBlockStop { index },
            SseEvent::MessageDelta { stop_reason, usage } => SseEventView::MessageDelta {
                stop_reason: stop_reason.deep_view(),
                usage,
            },
            SseEvent::MessageStop => SseEventView::MessageStop,
            SseEvent::Ping => SseEventView::Ping,
            SseEvent::Error { kind, message } => SseEventView::Error {
                kind: kind@,
                message: message@,
            },
            SseEvent::Other => SseEventView::Other,
        }),
{
}

/// The model of [`DeltaEnvelope`] keeps every field.
pub proof fn law_view_of_delta_envelope(value: DeltaEnvelope)
    ensures
        value.deep_view().delta == value.delta.deep_view(),
        value.deep_view().item_id == value.item_id.deep_view(),
        value.deep_view().output_index == value.output_index,
{
}

/// The model of [`OutputItem`] keeps every field.
pub proof fn law_view_of_output_item(value: OutputItem)
    ensures
        value.deep_view().item_type == value.item_type@,
        value.deep_view().id == value.id.deep_view(),
        value.deep_view().call_id == value.call_id.deep_view(),
        value.deep_view().name == value.name.deep_view(),
{
}

/// The model of [`ResponsesEvent`] keeps every variant with every field.
pub proof fn law_view_of_responses_event(value: ResponsesEvent)
    ensures
        value.deep_view() == (match value {
            ResponsesEvent::OutputTextDelta(delta) => ResponsesEventView::OutputTextDelta(
                delta.deep_view(),
            ),
            ResponsesEvent::OutputItemAdded { item } => ResponsesEventView::OutputItemAdded {
                item: item.deep_view(),
            },
            ResponsesEvent::FunctionCallArgumentsDelta(delta) =>
            ResponsesEventView::FunctionCallArgumentsDelta(delta.deep_view()),
            ResponsesEvent::Completed => ResponsesEventView::Completed,
        }),
{
}

/// The model of [`FunctionCall`] keeps every field.
pub proof fn law_view_of_function_call(value: FunctionCall)
    ensures
        value.deep_view().name == value.name@,
        value.deep_view().args == value.args@,
{
}

/// The model of [`Part`] keeps every field.
pub proof fn law_view_of_part(value: Part)
    ensures
        value.deep_view().text == value.text.deep_view(),
        value.deep_view().function_call == value.function_call.deep_view(),
{
}

/// The model of [`Candidate`] keeps every field.
pub proof fn law_view_of_candidate(value: Candidate)
    ensures
        value.deep_view().parts == (match value.content {
                Some(content) => Some(content.parts.deep_view()),
                None => None,
            }),
        value.deep_view().finish_reason == value.finish_reason.deep_view(),
{
}

/// The model of [`Chunk`] keeps every field.
pub proof fn law_view_of_chunk(value: Chunk)
    ensures
        value.deep_view().candidates == value.candidates.deep_view(),
        value.deep_view().usage_metadata == value.usage_metadata,
        value.deep_view().model_version == value.model_version.deep_view(),
{
}

/// The model of [`ProviderRequest`] keeps every field.
pub proof fn law_view_of_provider_request(value: ProviderRequest)
    ensures
        value.deep_view().url == value.url@,
        value.deep_view().bearer == value.bearer.deep_view(),
        value.deep_view().headers == value.headers.deep_view(),
        value.deep_view().logged == value.logged@,
        value.deep_view().body == value.body@,
{
}

/// The model of [`Sent`] keeps every variant with every field.
pub proof fn law_view_of_sent(value: Sent)
    ensures
        value.deep_view() == (match value {
            Sent::Failed { reason, timeout, connect } => SentView::Failed {
                reason: reason@,
                timeout,
                connect,
            },
            Sent::Answered { status, body, retryable, retry_after_ms } => SentView::Answered {
                status,
                body: body@,
                retryable,
                retry_after_ms,
            },
        }),
{
}

/// The model of [`Attempt`] keeps every variant with every field.
pub proof fn law_view_of_attempt(value: Attempt)
    ensures
        value.deep_view() == (match value {
            Attempt::Ready => AttemptView::Ready,
            Attempt::Retry { error, retry_after_ms } => AttemptView::Retry {
                error: error.deep_view(),
                retry_after_ms,
            },
            Attempt::Fatal(error) => AttemptView::Fatal(error.deep_view()),
        }),
{
}

/// The model of [`Incoming`] keeps every variant with every field.
pub proof fn law_view_of_incoming<E: DeepView>(value: Incoming<E>)
    ensures
        value.deep_view() == (match value {
            Incoming::Cancelled => IncomingView::Cancelled,
            Incoming::Broken(reason) => IncomingView::Broken(reason@),
            Incoming::Record(event) => IncomingView::Record(event.deep_view()),
        }),
{
}

/// The model of [`Next`] keeps every variant with every field.
pub proof fn law_view_of_next(value: Next)
    ensures
        value.deep_view() == (match value {
            Next::Read => NextView::Read,
            Next::Finish => NextView::Finish,
            Next::Close => NextView::Close,
            Next::Fail(error) => NextView::Fail(error.deep_view()),
        }),
{
}

/// The model of [`Step`] keeps every field.
pub proof fn law_view_of_step(value: Step)
    ensures
        value.deep_view().events == value.events.deep_view(),
        value.deep_view().next == value.next.deep_view(),
{
}

} // verus!
