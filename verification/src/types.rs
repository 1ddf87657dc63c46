//! Messages, models and requests, in the form that every provider shares.

use vstd::prelude::*;

use crate::headers::Headers;
use crate::json::{Json, JsonView};

verus! {

/// How much a model is asked to think before it answers.
#[derive(Clone, Copy, Debug, PartialEq, Eq, Structural)]
pub enum ThinkingLevel {
    Off,
    Minimal,
    Low,
    Medium,
    High,
    Xhigh,
}

/// How long a provider is asked to keep the prompt in its cache.
#[derive(Clone, Copy, Debug, PartialEq, Eq, Structural)]
pub enum CacheRetention {
    Off,
    Short,
    Long,
}

/// Why a model stopped.
#[derive(Clone, Copy, Debug, PartialEq, Eq, Structural)]
pub enum StopReason {
    Stop,
    Length,
    ToolUse,
    Error,
}

/// Token counts of one answer.
#[derive(Clone, Copy, Debug, PartialEq, Eq, Structural)]
pub struct Usage {
    pub input: u64,
    pub output: u64,
    pub cache_read: u64,
    pub cache_write: u64,
    pub total_tokens: u64,
    /// Whether the counts are to be priced.
    pub priced: bool,
    /// The price of the counts, as the bits of a floating-point number. It is
    /// zero until they are priced.
    pub cost_bits: u64,
}

/// One piece of a message.
#[derive(Debug, PartialEq)]
pub enum Content {
    Text { text: String },
    Thinking { thinking: String, thinking_signature: Option<String> },
    Image { data: String, mime_type: String },
    ToolCall { id: String, name: String, arguments: Json },
}

/// What a model answered.
#[derive(Debug, PartialEq)]
pub struct AssistantMessage {
    pub content: Vec<Content>,
    pub api: String,
    pub provider: String,
    pub model: String,
    pub usage: Usage,
    pub stop_reason: StopReason,
    pub error_message: Option<String>,
    pub timestamp: u64,
}

/// What a tool gave back.
#[derive(Debug, PartialEq)]
pub struct ToolResultMessage {
    pub tool_call_id: String,
    pub tool_name: String,
    pub content: Vec<Content>,
    pub is_error: bool,
    pub timestamp: u64,
}

/// One message of a conversation.
#[derive(Debug, PartialEq)]
pub enum Message {
    User { content: Vec<Content>, timestamp: u64 },
    Assistant(AssistantMessage),
    ToolResult(ToolResultMessage),
}

/// A tool that a model may call.
#[derive(Debug, PartialEq)]
pub struct Tool {
    pub name: String,
    pub description: String,
    pub parameters: Json,
}

/// What a model is asked to answer.
#[derive(Debug, PartialEq)]
pub struct Context {
    pub system_prompt: Option<String>,
    pub messages: Vec<Message>,
    pub tools: Vec<Tool>,
}

/// A model and where it is served.
#[derive(Debug, PartialEq)]
pub struct Model {
    pub id: String,
    pub provider: String,
    pub api: String,
    pub base_url: String,
    pub max_tokens: u64,
}

/// How a model is asked.
#[derive(Debug, PartialEq)]
pub struct StreamOptions {
    pub api_key: Option<String>,
    pub base_url: Option<String>,
    pub headers: Headers,
    /// The sampling temperature, as the JSON value that goes into the request.
    pub temperature: Option<Json>,
    pub max_tokens: Option<u64>,
    pub reasoning: Option<ThinkingLevel>,
    pub cache_retention: CacheRetention,
}

/// What a stream tells its reader as an answer arrives.
#[derive(Debug, PartialEq)]
pub enum AssistantMessageEvent {
    Start,
    TextStart { content_index: usize },
    TextDelta { content_index: usize, delta: String },
    TextEnd { content_index: usize, content: String },
    ThinkingStart { content_index: usize },
    ThinkingDelta { content_index: usize, delta: String },
    ThinkingEnd { content_index: usize, content: String },
    ToolCallStart { content_index: usize, id: String, name: String },
    ToolCallDelta { content_index: usize, delta: String },
    ToolCallEnd { content_index: usize, id: String, name: String, arguments: Json },
    Done { reason: StopReason, message: AssistantMessage },
    Error { reason: StopReason, error: AssistantMessage },
}

/// Why a request or a stream failed.
#[derive(Debug, PartialEq)]
pub enum StreamError {
    MissingApiKey(String),
    Http(String),
    ProviderError { status: u16, body: String },
    InvalidResponse(String),
    Cancelled,
}

/// The model of [`Content`].
pub enum ContentView {
    Text { text: Seq<char> },
    Thinking { thinking: Seq<char>, thinking_signature: Option<Seq<char>> },
    Image { data: Seq<char>, mime_type: Seq<char> },
    ToolCall { id: Seq<char>, name: Seq<char>, arguments: JsonView },
}

/// The model of [`AssistantMessage`].
pub struct AssistantView {
    pub content: Seq<ContentView>,
    pub api: Seq<char>,
    pub provider: Seq<char>,
    pub model: Seq<char>,
    pub usage: Usage,
    pub stop_reason: StopReason,
    pub error_message: Option<Seq<char>>,
    pub timestamp: u64,
}

/// The model of [`ToolResultMessage`].
pub struct ToolResultView {
    pub tool_call_id: Seq<char>,
    pub tool_name: Seq<char>,
    pub content: Seq<ContentView>,
    pub is_error: bool,
    pub timestamp: u64,
}

/// The model of [`Message`].
pub enum MessageView {
    User { content: Seq<ContentView>, timestamp: u64 },
    Assistant(AssistantView),
    ToolResult(ToolResultView),
}

/// The model of [`Tool`].
pub struct ToolView {
    pub name: Seq<char>,
    pub description: Seq<char>,
    pub parameters: JsonView,
}

/// The model of [`Context`].
pub struct ContextView {
    pub system_prompt: Option<Seq<char>>,
    pub messages: Seq<MessageView>,
    pub tools: Seq<ToolView>,
}

/// The model of [`Model`].
pub struct ModelView {
    pub id: Seq<char>,
    pub provider: Seq<char>,
    pub api: Seq<char>,
    pub base_url: Seq<char>,
    pub max_tokens: u64,
}

/// The model of [`StreamOptions`].
pub struct OptionsView {
    pub api_key: Option<Seq<char>>,
    pub base_url: Option<Seq<char>>,
    pub headers: Seq<(Seq<char>, Seq<char>)>,
    pub temperature: Option<JsonView>,
    pub max_tokens: Option<u64>,
    pub reasoning: Option<ThinkingLevel>,
    pub cache_retention: CacheRetention,
}

/// The model of [`AssistantMessageEvent`].
pub enum EventView {
    Start,
    TextStart { content_index: usize },
    TextDelta { content_index: usize, delta: Seq<char> },
    TextEnd { content_index: usize, content: Seq<char> },
    ThinkingStart { content_index: usize },
    ThinkingDelta { content_index: usize, delta: Seq<char> },
    ThinkingEnd { content_index: usize, content: Seq<char> },
    ToolCallStart { content_index: usize, id: Seq<char>, name: Seq<char> },
    ToolCallDelta { content_index: usize, delta: Seq<char> },
    ToolCallEnd { content_index: usize, id: Seq<char>, name: Seq<char>, arguments: JsonView },
    Done { reason: StopReason, message: AssistantView },
    Error { reason: StopReason, error: AssistantView },
}

/// The model of [`StreamError`].
pub enum StreamErrorView {
    MissingApiKey(Seq<char>),
    Http(Seq<char>),
    ProviderError { status: u16, body: Seq<char> },
    InvalidResponse(Seq<char>),
    Cancelled,
}

impl DeepView for Content {
    type V = ContentView;

    open spec fn deep_view(&self) -> ContentView {
        match *self {
            Content::Text { text } => ContentView::Text { text: text@ },
            Content::Thinking { thinking, thinking_signature } => ContentView::Thinking {
                thinking: thinking@,
                thinking_signature: thinking_signature.deep_view(),
            },
            Content::Image { data, mime_type } => ContentView::Image {
                data: data@,
                mime_type: mime_type@,
            },
            Content::ToolCall { id, name, arguments } => ContentView::ToolCall {
                id: id@,
                name: name@,
                arguments: arguments@,
            },
        }
    }
}

impl DeepView for AssistantMessage {
    type V = AssistantView;

    open spec fn deep_view(&self) -> AssistantView {
        AssistantView {
            content: self.content.deep_view(),
            api: self.api@,
            provider: self.provider@,
            model: self.model@,
            usage: self.usage,
            stop_reason: self.stop_reason,
            error_message: self.error_message.deep_view(),
            timestamp: self.timestamp,
        }
    }
}

impl DeepView for ToolResultMessage {
    type V = ToolResultView;

    open spec fn deep_view(&self) -> ToolResultView {
        ToolResultView {
            tool_call_id: self.tool_call_id@,
            tool_name: self.tool_name@,
            content: self.content.deep_view(),
            is_error: self.is_error,
            timestamp: self.timestamp,
        }
    }
}

impl DeepView for Message {
    type V = MessageView;

    open spec fn deep_view(&self) -> MessageView {
        match *self {
            Message::User { content, timestamp } => MessageView::User {
                content: content.deep_view(),
                timestamp,
            },
            Message::Assistant(message) => MessageView::Assistant(message.deep_view()),
            Message::ToolResult(result) => MessageView::ToolResult(result.deep_view()),
        }
    }
}

impl DeepView for Tool {
    type V = ToolView;

    open spec fn deep_view(&self) -> ToolView {
        ToolView {
            name: self.name@,
            description: self.description@,
            parameters: self.parameters@,
        }
    }
}

impl DeepView for Context {
    type V = ContextView;

    open spec fn deep_view(&self) -> ContextView {
        ContextView {
            system_prompt: self.system_prompt.deep_view(),
            messages: self.messages.deep_view(),
            tools: self.tools.deep_view(),
        }
    }
}

impl DeepView for Model {
    type V = ModelView;

    open spec fn deep_view(&self) -> ModelView {
        ModelView {
            id: self.id@,
            provider: self.provider@,
            api: self.api@,
            base_url: self.base_url@,
            max_tokens: self.max_tokens,
        }
    }
}

impl DeepView for StreamOptions {
    type V = OptionsView;

    open spec fn deep_view(&self) -> OptionsView {
        OptionsView {
            api_key: self.api_key.deep_view(),
            base_url: self.base_url.deep_view(),
            headers: self.headers@,
            temperature: self.temperature.deep_view(),
            max_tokens: self.max_tokens,
            reasoning: self.reasoning,
            cache_retention: self.cache_retention,
        }
    }
}

impl DeepView for AssistantMessageEvent {
    type V = EventView;

    open spec fn deep_view(&self) -> EventView {
        match *self {
            AssistantMessageEvent::Start => EventView::Start,
            AssistantMessageEvent::TextStart { content_index } => EventView::TextStart {
                content_index,
            },
            AssistantMessageEvent::TextDelta { content_index, delta } => EventView::TextDelta {
                content_index,
                delta: delta@,
            },
            AssistantMessageEvent::TextEnd { content_index, content } => EventView::TextEnd {
                content_index,
                content: content@,
            },
            AssistantMessageEvent::ThinkingStart { content_index } => EventView::ThinkingStart {
                content_index,
            },
            AssistantMessageEvent::ThinkingDelta { content_index, delta } =>
            EventView::ThinkingDelta { content_index, delta: delta@ },
            AssistantMessageEvent::ThinkingEnd { content_index, content } =>
            EventView::ThinkingEnd { content_index, content: content@ },
            AssistantMessageEvent::ToolCallStart { content_index, id, name } =>
            EventView::ToolCallStart { content_index, id: id@, name: name@ },
            AssistantMessageEvent::ToolCallDelta { content_index, delta } =>
            EventView::ToolCallDelta { content_index, delta: delta@ },
            AssistantMessageEvent::ToolCallEnd { content_index, id, name, arguments } =>
            EventView::ToolCallEnd {
                content_index,
                id: id@,
                name: name@,
                arguments: arguments@,
            },
            AssistantMessageEvent::Done { reason, message } => EventView::Done {
                reason,
                message: message.deep_view(),
            },
            AssistantMessageEvent::Error { reason, error } => EventView::Error {
                reason,
                error: error.deep_view(),
            },
        }
    }
}

impl DeepView for StreamError {
    type V = StreamErrorView;

    open spec fn deep_view(&self) -> StreamErrorView {
        match *self {
            StreamError::MissingApiKey(provider) => StreamErrorView::MissingApiKey(provider@),
            StreamError::Http(reason) => StreamErrorView::Http(reason@),
            StreamError::ProviderError { status, body } => StreamErrorView::ProviderError {
                status,
                body: body@,
            },
            StreamError::InvalidResponse(reason) => StreamErrorView::InvalidResponse(reason@),
            StreamError::Cancelled => StreamErrorView::Cancelled,
        }
    }
}

impl Clone for Content {
    fn clone(&self) -> (copy: Self)
        ensures
            copy.deep_view() == self.deep_view(),
    {
        match self {
            Content::Text { text } => Content::Text { text: text.clone() },
            Content::Thinking { thinking, thinking_signature } => Content::Thinking {
                thinking: thinking.clone(),
                thinking_signature: thinking_signature.clone(),
            },
            Content::Image { data, mime_type } => Content::Image {
                data: data.clone(),
                mime_type: mime_type.clone(),
            },
            Content::ToolCall { id, name, arguments } => Content::ToolCall {
                id: id.clone(),
                name: name.clone(),
                arguments: arguments.clone(),
            },
        }
    }
}

impl Clone for AssistantMessage {
    fn clone(&self) -> (copy: Self)
        ensures
            copy.deep_view() == self.deep_view(),
    {
        let content = self.content.clone();
        assert(content.deep_view() =~= self.content.deep_view());
        AssistantMessage {
            content,
            api: self.api.clone(),
            provider: self.provider.clone(),
            model: self.model.clone(),
            usage: self.usage,
            stop_reason: self.stop_reason,
            error_message: self.error_message.clone(),
            timestamp: self.timestamp,
        }
    }
}

impl Clone for ToolResultMessage {
    fn clone(&self) -> (copy: Self)
        ensures
            copy.deep_view() == self.deep_view(),
    {
        let content = self.content.clone();
        assert(content.deep_view() =~= self.content.deep_view());
        ToolResultMessage {
            tool_call_id: self.tool_call_id.clone(),
            tool_name: self.tool_name.clone(),
            content,
            is_error: self.is_error,
            timestamp: self.timestamp,
        }
    }
}

impl Clone for Message {
    fn clone(&self) -> (copy: Self)
        ensures
            copy.deep_view() == self.deep_view(),
    {
        match self {
            Message::User { content, timestamp } => {
                let copy = content.clone();
                assert(copy.deep_view() =~= content.deep_view());
                Message::User { content: copy, timestamp: *timestamp }
            },
            Message::Assistant(message) => Message::Assistant(message.clone()),
            Message::ToolResult(result) => Message::ToolResult(result.clone()),
        }
    }
}

impl Clone for Tool {
    fn clone(&self) -> (copy: Self)
        ensures
            copy.deep_view() == self.deep_view(),
    {
        Tool {
            name: self.name.clone(),
            description: self.description.clone(),
            parameters: self.parameters.clone(),
        }
    }
}

impl Clone for StreamOptions {
    fn clone(&self) -> (copy: Self)
        ensures
            copy.deep_view() == self.deep_view(),
    {
        StreamOptions {
            api_key: self.api_key.clone(),
            base_url: self.base_url.clone(),
            headers: self.headers.clone(),
            temperature: self.temperature.clone(),
            max_tokens: self.max_tokens,
            reasoning: self.reasoning,
            cache_retention: self.cache_retention,
        }
    }
}

impl Content {
    /// A piece of text.
    pub fn text(text: &str) -> (content: Content)
        ensures
            content.deep_view() == (ContentView::Text { text: text@ }),
    {
        Content::Text { text: text.to_owned() }
    }

    /// The text of a piece of text.
    pub fn as_text(&self) -> (text: Option<&str>)
        ensures
            match text {
                Some(text) => self.deep_view() == (ContentView::Text { text: text@ }),
                None => !(self.deep_view() is Text),
            },
    {
        match self {
            Content::Text { text } => Some(text.as_str()),
            _ => None,
        }
    }
}

/// The texts among the pieces of a message, one after the other.
pub open spec fn text_of(content: Seq<ContentView>) -> Seq<char>
    decreases content.len(),
{
    if content.len() == 0 {
        Seq::empty()
    } else {
        text_of(content.drop_last()) + match content.last() {
            ContentView::Text { text } => text,
            _ => Seq::empty(),
        }
    }
}

/// The text of a message is that of its pieces, piece by piece: a text as it is,
/// and nothing for any other piece.
pub proof fn law_text_is_read_piece_by_piece(
    a: Seq<ContentView>,
    b: Seq<ContentView>,
    piece: ContentView,
)
    ensures
        text_of(a + b) == text_of(a) + text_of(b),
        text_of(seq![piece]) == match piece {
            ContentView::Text { text } => text,
            _ => Seq::empty(),
        },
    decreases b.len(),
{
    assert(seq![piece].drop_last() =~= Seq::empty());
    assert(text_of(Seq::empty()) =~= Seq::empty());
    if let ContentView::Text { text } = piece {
        assert(Seq::<char>::empty() + text =~= text);
    } else {
        assert(Seq::<char>::empty() + Seq::<char>::empty() =~= Seq::<char>::empty());
    }
    if b.len() == 0 {
        assert(a + b =~= a);
        assert(text_of(a) + text_of(b) =~= text_of(a));
    } else {
        law_text_is_read_piece_by_piece(a, b.drop_last(), piece);
        assert((a + b).drop_last() =~= a + b.drop_last());
        assert(text_of(a + b) =~= text_of(a) + text_of(b));
    }
}

/// Joins the texts among the pieces of a message.
pub fn joined_text(content: &Vec<Content>) -> (out: String)
    ensures
        out@ == text_of(content.deep_view()),
{
    let ghost all = content.deep_view();
    let mut out = String::new();
    for i in 0..content.len()
        invariant
            all == content.deep_view(),
            out@ == text_of(all.take(i as int)),
    {
        assert(all.take(i + 1).drop_last() =~= all.take(i as int));
        assert(all[i as int] == content@[i as int].deep_view());
        match content[i].as_text() {
            Some(text) => out.append(text),
            None => {
                assert(out@ + Seq::<char>::empty() =~= out@);
            },
        }
    }
    assert(all.take(all.len() as int) =~= all);
    out
}

impl Usage {
    /// Nothing used.
    pub open spec fn zero() -> Usage {
        Usage {
            input: 0,
            output: 0,
            cache_read: 0,
            cache_write: 0,
            total_tokens: 0,
            priced: false,
            cost_bits: 0,
        }
    }
}

impl Default for Usage {
    fn default() -> (usage: Usage)
        ensures
            usage == Usage::zero(),
    {
        Usage {
            input: 0,
            output: 0,
            cache_read: 0,
            cache_write: 0,
            total_tokens: 0,
            priced: false,
            cost_bits: 0,
        }
    }
}

} // verus!
