//! Reading the events of an Anthropic answer.

use std::collections::HashMap;

use vstd::prelude::*;

use crate::json;
use crate::json::JsonView;
use crate::providers::stream;
use crate::providers::stream::{Incoming, IncomingView, Next, NextView, Step, StepView};
use crate::types::{
    AssistantMessage, AssistantMessageEvent, AssistantView, Content, ContentView, EventView, Model,
    ModelView, StopReason, StreamError, Usage,
};

verus! {

/// Token counts that an event reports.
#[derive(Clone, Copy, Debug, PartialEq, Eq)]
pub struct UsageDelta {
    pub input_tokens: u64,
    pub output_tokens: u64,
    pub cache_read_input_tokens: u64,
    pub cache_creation_input_tokens: u64,
}

/// The kind of block that starts.
#[derive(Debug, PartialEq)]
pub enum BlockStart {
    Text,
    Thinking,
    ToolUse { id: String, name: String },
    Other,
}

/// What is added to a block.
#[derive(Debug, PartialEq)]
pub enum BlockDelta {
    TextDelta { text: String },
    ThinkingDelta { thinking: String },
    InputJsonDelta { partial_json: String },
    SignatureDelta { signature: String },
    Other,
}

/// One event of an answer.
#[derive(Debug, PartialEq)]
pub enum SseEvent {
    MessageStart { model: Option<String>, usage: Option<UsageDelta> },
    ContentBlockStart { index: usize, content_block: BlockStart },
    ContentBlockDelta { index: usize, delta: BlockDelta },
    ContentBlockStop { index: usize },
    MessageDelta { stop_reason: Option<String>, usage: Option<UsageDelta> },
    MessageStop,
    Ping,
    Error { kind: String, message: String },
    Other,
}

/// The model of [`BlockStart`].
pub enum BlockStartView {
    Text,
    Thinking,
    ToolUse { id: Seq<char>, name: Seq<char> },
    Other,
}

/// The model of [`BlockDelta`].
pub enum BlockDeltaView {
    TextDelta { text: Seq<char> },
    ThinkingDelta { thinking: Seq<char> },
    InputJsonDelta { partial_json: Seq<char> },
    SignatureDelta { signature: Seq<char> },
    Other,
}

/// The model of [`SseEvent`].
pub enum SseEventView {
    MessageStart { model: Option<Seq<char>>, usage: Option<UsageDelta> },
    ContentBlockStart { index: usize, content_block: BlockStartView },
    ContentBlockDelta { index: usize, delta: BlockDeltaView },
    ContentBlockStop { index: usize },
    MessageDelta { stop_reason: Option<Seq<char>>, usage: Option<UsageDelta> },
    MessageStop,
    Ping,
    Error { kind: Seq<char>, message: Seq<char> },
    Other,
}

impl DeepView for BlockStart {
    type V = BlockStartView;

    open spec fn deep_view(&self) -> BlockStartView {
        match *self {
            BlockStart::Text => BlockStartView::Text,
            BlockStart::Thinking => BlockStartView::Thinking,
            BlockStart::ToolUse { id, name } => BlockStartView::ToolUse { id: id@, name: name@ },
            BlockStart::Other => BlockStartView::Other,
        }
    }
}

impl DeepView for BlockDelta {
    type V = BlockDeltaView;

    open spec fn deep_view(&self) -> BlockDeltaView {
        match *self {
            BlockDelta::TextDelta { text } => BlockDeltaView::TextDelta { text: text@ },
            BlockDelta::ThinkingDelta { thinking } => BlockDeltaView::ThinkingDelta {
                thinking: thinking@,
            },
            BlockDelta::InputJsonDelta { partial_json } => BlockDeltaView::InputJsonDelta {
                partial_json: partial_json@,
            },
            BlockDelta::SignatureDelta { signature } => BlockDeltaView::SignatureDelta {
                signature: signature@,
            },
            BlockDelta::Other => BlockDeltaView::Other,
        }
    }
}

impl DeepView for SseEvent {
    type V = SseEventView;

    open spec fn deep_view(&self) -> SseEventView {
        match *self {
            SseEvent::MessageStart { model, usage } => SseEventView::MessageStart {
                model: model.deep_view(),
                usage,
            },
            SseEvent::ContentBlockStart { index, content_block } =>
            SseEventView::ContentBlockStart { index, content_block: content_block.deep_view() },
            SseEvent::ContentBlockDelta { index, delta } => SseEventView::ContentBlockDelta {
                index,
                delta: delta.deep_view(),
            },
            SseEvent::ContentBlockStop { index } => SseEventView::ContentBlockStop { index },
            SseEvent::MessageDelta { stop_reason, usage } => SseEventView::MessageDelta {
                stop_reason: stop_reason.deep_view(),
                usage,
            },
            SseEvent::MessageStop => SseEventView::MessageStop,
            SseEvent::Ping => SseEventView::Ping,
            SseEvent::Error { kind, message } => SseEventView::Error {
                kind: kind@,
                message: message@,
            },
            SseEvent::Other => SseEventView::Other,
        }
    }
}

/// What a block holds.
#[derive(Clone, Copy, Debug, PartialEq, Eq, Structural)]
pub enum BlockKind {
    Unknown,
    Text,
    Thinking,
    ToolUse,
}

/// A block that is being collected.
#[derive(Debug)]
struct BlockState {
    kind: BlockKind,
    text_buf: String,
    json_buf: String,
    tool_id: String,
    tool_name: String,
    signature: Option<String>,
}

/// The model of a block that is being collected.
pub struct BlockView {
    pub kind: BlockKind,
    pub text: Seq<char>,
    pub json: Seq<char>,
    pub id: Seq<char>,
    pub name: Seq<char>,
    pub signature: Option<Seq<char>>,
}

impl DeepView for BlockState {
    type V = BlockView;

    closed spec fn deep_view(&self) -> BlockView {
        BlockView {
            kind: self.kind,
            text: self.text_buf@,
            json: self.json_buf@,
            id: self.tool_id@,
            name: self.tool_name@,
            signature: self.signature.deep_view(),
        }
    }
}

/// A block of which nothing has arrived.
pub open spec fn empty_block() -> BlockView {
    BlockView {
        kind: BlockKind::Unknown,
        text: Seq::empty(),
        json: Seq::empty(),
        id: Seq::empty(),
        name: Seq::empty(),
        signature: None,
    }
}

/// The reading of one answer.
pub struct AnthropicStream {
    blocks: HashMap<usize, BlockState>,
    order: Vec<usize>,
    stop: StopReason,
    usage: Usage,
    response_model: Option<String>,
    api: String,
    provider: String,
    model_id: String,
}

/// The model of [`AnthropicStream`].
pub struct AnthropicView {
    /// The blocks of which something has arrived.
    pub blocks: Map<usize, BlockView>,
    /// The blocks in the order in which they were started.
    pub order: Seq<usize>,
    pub stop: StopReason,
    pub usage: Usage,
    pub response_model: Option<Seq<char>>,
    pub api: Seq<char>,
    pub provider: Seq<char>,
    pub model_id: Seq<char>,
}

impl View for AnthropicStream {
    type V = AnthropicView;

    closed spec fn view(&self) -> AnthropicView {
        AnthropicView {
            blocks: self.blocks@.map_values(|block: BlockState| block.deep_view()),
            order: self.order@,
            stop: self.stop,
            usage: self.usage,
            response_model: self.response_model.deep_view(),
            api: self.api@,
            provider: self.provider@,
            model_id: self.model_id@,
        }
    }
}

/// An answer of which nothing has arrived.
pub open spec fn fresh(model: ModelView) -> AnthropicView {
    AnthropicView {
        blocks: Map::empty(),
        order: Seq::empty(),
        stop: StopReason::Stop,
        usage: Usage::zero(),
        response_model: None,
        api: model.api,
        provider: model.provider,
        model_id: model.id,
    }
}

/// Why the model stopped, by the reason that the provider gives.
pub open spec fn stop_of(reason: Seq<char>) -> StopReason {
    if reason == "tool_use"@ {
        StopReason::ToolUse
    } else if reason == "max_tokens"@ {
        StopReason::Length
    } else {
        StopReason::Stop
    }
}

impl AnthropicView {
    /// A block as it stands.
    pub open spec fn block(self, index: usize) -> BlockView {
        if self.blocks.contains_key(index) {
            self.blocks[index]
        } else {
            empty_block()
        }
    }

    /// The same answer with one block changed.
    pub open spec fn with_block(self, index: usize, block: BlockView) -> AnthropicView {
        AnthropicView { blocks: self.blocks.insert(index, block), ..self }
    }

    /// The model that answers.
    pub open spec fn model(self) -> Seq<char> {
        match self.response_model {
            Some(model) => model,
            None => self.model_id,
        }
    }

    /// Whether the counts of an event can be added.
    pub open spec fn fits(self, event: SseEventView) -> bool {
        match event {
            SseEventView::MessageStart { usage: Some(u), .. } => {
                &&& self.usage.input + u.input_tokens <= u64::MAX
                &&& self.usage.cache_read + u.cache_read_input_tokens <= u64::MAX
                &&& self.usage.cache_write + u.cache_creation_input_tokens <= u64::MAX
            },
            SseEventView::MessageDelta { usage: Some(u), .. } => self.usage.output
                + u.output_tokens <= u64::MAX,
            _ => true,
        }
    }

    /// The answer after an event.
    pub open spec fn after(self, event: SseEventView) -> AnthropicView {
        match event {
            SseEventView::MessageStart { model, usage } => AnthropicView {
                response_model: match model {
                    Some(model) => Some(model),
                    None => self.response_model,
                },
                usage: match usage {
                    Some(u) => Usage {
                        input: (self.usage.input + u.input_tokens) as u64,
                        cache_read: (self.usage.cache_read + u.cache_read_input_tokens) as u64,
                        cache_write: (self.usage.cache_write
                            + u.cache_creation_input_tokens) as u64,
                        ..self.usage
                    },
                    None => self.usage,
                },
                ..self
            },
            SseEventView::ContentBlockStart { index, content_block } => {
                let block = self.block(index);
                let block = match content_block {
                    BlockStartView::Text => BlockView { kind: BlockKind::Text, ..block },
                    BlockStartView::Thinking => BlockView { kind: BlockKind::Thinking, ..block },
                    BlockStartView::ToolUse { id, name } => BlockView {
                        kind: BlockKind::ToolUse,
                        id,
                        name,
                        ..block
                    },
                    BlockStartView::Other => block,
                };
                AnthropicView { order: self.order.push(index), ..self.with_block(index, block) }
            },
            SseEventView::ContentBlockDelta { index, delta } => {
                let block = self.block(index);
                self.with_block(
                    index,
                    match delta {
                        BlockDeltaView::TextDelta { text } => BlockView {
                            text: block.text + text,
                            ..block
                        },
                        BlockDeltaView::ThinkingDelta { thinking } => BlockView {
                            text: block.text + thinking,
                            ..block
                        },
                        BlockDeltaView::InputJsonDelta { partial_json } => BlockView {
                            json: block.json + partial_json,
                            ..block
                        },
                        BlockDeltaView::SignatureDelta { signature } => BlockView {
                            signature: Some(signature),
                            ..block
                        },
                        BlockDeltaView::Other => block,
                    },
                )
            },
            SseEventView::MessageDelta { stop_reason, usage } => AnthropicView {
                usage: match usage {
                    Some(u) => Usage {
                        output: (self.usage.output + u.output_tokens) as u64,
                        ..self.usage
                    },
                    None => self.usage,
                },
                stop: match stop_reason {
                    Some(reason) => stop_of(reason),
                    None => self.stop,
                },
                ..self
            },
            _ => self,
        }
    }

    /// What an event tells.
    pub open spec fn told(self, event: SseEventView, now: u64) -> StepView {
        match event {
            SseEventView::ContentBlockStart { index, content_block } => match content_block {
                BlockStartView::Text => stream::telling(
                    seq![EventView::TextStart { content_index: index }],
                ),
                BlockStartView::Thinking => stream::telling(
                    seq![EventView::ThinkingStart { content_index: index }],
                ),
                BlockStartView::ToolUse { id, name } => stream::telling(
                    seq![EventView::ToolCallStart { content_index: index, id, name }],
                ),
                BlockStartView::Other => stream::silent(),
            },
            SseEventView::ContentBlockDelta { index, delta } => match delta {
                BlockDeltaView::TextDelta { text } => stream::telling(
                    seq![EventView::TextDelta { content_index: index, delta: text }],
                ),
                BlockDeltaView::ThinkingDelta { thinking } => stream::telling(
                    seq![EventView::ThinkingDelta { content_index: index, delta: thinking }],
                ),
                BlockDeltaView::InputJsonDelta { partial_json } => stream::telling(
                    seq![EventView::ToolCallDelta { content_index: index, delta: partial_json }],
                ),
                _ => stream::silent(),
            },
            SseEventView::ContentBlockStop { index } => {
                let block = self.block(index);
                match block.kind {
                    BlockKind::Text => stream::telling(
                        seq![EventView::TextEnd { content_index: index, content: block.text }],
                    ),
                    BlockKind::Thinking => stream::telling(
                        seq![EventView::ThinkingEnd { content_index: index, content: block.text }],
                    ),
                    BlockKind::ToolUse => stream::telling(
                        seq![
                            EventView::ToolCallEnd {
                                content_index: index,
                                id: block.id,
                                name: block.name,
                                arguments: arguments_of(block),
                            },
                        ],
                    ),
                    BlockKind::Unknown => stream::silent(),
                }
            },
            SseEventView::Error { kind, message } => StepView {
                events: seq![
                    EventView::Error {
                        reason: StopReason::Error,
                        error: AssistantView {
                            content: Seq::empty(),
                            api: self.api,
                            provider: self.provider,
                            model: self.model(),
                            usage: Usage { priced: true, ..self.usage },
                            stop_reason: StopReason::Error,
                            error_message: Some(kind + ": "@ + message),
                            timestamp: now,
                        },
                    },
                ],
                next: NextView::Close,
            },
            _ => stream::silent(),
        }
    }

    /// The content that the blocks make up, in the order in which they were
    /// started.
    pub open spec fn content(self) -> Seq<ContentView> {
        content_of(self.order, self.blocks)
    }

    /// The whole answer.
    pub open spec fn message(self, now: u64) -> AssistantView {
        AssistantView {
            content: self.content(),
            api: self.api,
            provider: self.provider,
            model: self.model(),
            usage: Usage {
                total_tokens: (self.usage.input + self.usage.output) as u64,
                priced: true,
                ..self.usage
            },
            stop_reason: self.stop,
            error_message: None,
            timestamp: now,
        }
    }
}

/// The arguments that the text of a tool block spells.
pub open spec fn arguments_of(block: BlockView) -> JsonView {
    json::arguments_or_none(block.json, json::parsed(block.json))
}

/// What a block contributes to the content of the answer.
pub open spec fn piece_of(block: BlockView) -> Seq<ContentView> {
    match block.kind {
        BlockKind::Text => seq![ContentView::Text { text: block.text }],
        BlockKind::Thinking => seq![
            ContentView::Thinking { thinking: block.text, thinking_signature: block.signature },
        ],
        BlockKind::ToolUse => seq![
            ContentView::ToolCall {
                id: block.id,
                name: block.name,
                arguments: arguments_of(block),
            },
        ],
        BlockKind::Unknown => Seq::empty(),
    }
}

/// The content that blocks make up in a given order.
pub open spec fn content_of(order: Seq<usize>, blocks: Map<usize, BlockView>) -> Seq<ContentView>
    decreases order.len(),
{
    if order.len() == 0 {
        Seq::empty()
    } else {
        content_of(order.drop_last(), blocks) + if blocks.contains_key(order.last()) {
            piece_of(blocks[order.last()])
        } else {
            Seq::empty()
        }
    }
}

/// What comes of a record, a broken transport and a reader who gave up.
pub open spec fn step_of(state: AnthropicView, incoming: IncomingView<SseEventView>, now: u64) -> (
    AnthropicView,
    StepView,
) {
    match incoming {
        IncomingView::Cancelled => (
            state,
            stream::failing(crate::types::StreamErrorView::Cancelled),
        ),
        IncomingView::Broken(reason) => (state, stream::failing(stream::broken(reason))),
        IncomingView::Record(None) => (state, stream::silent()),
        IncomingView::Record(Some(event)) => (state.after(event), state.told(event, now)),
    }
}

fn kind_of_stop(reason: &str) -> (stop: StopReason)
    ensures
        stop == stop_of(reason@),
{
    if crate::text::same(reason, "tool_use") {
        StopReason::ToolUse
    } else if crate::text::same(reason, "max_tokens") {
        StopReason::Length
    } else {
        StopReason::Stop
    }
}

impl AnthropicStream {
    /// Starts to read an answer.
    pub fn open(model: &Model) -> (opened: (AnthropicStream, Vec<AssistantMessageEvent>))
        ensures
            opened.0@ == fresh(model.deep_view()),
            opened.1.deep_view() == seq![EventView::Start],
    {
        let state = AnthropicStream {
            blocks: HashMap::new(),
            order: Vec::new(),
            stop: StopReason::Stop,
            usage: Usage::default(),
            response_model: None,
            api: model.api.clone(),
            provider: model.provider.clone(),
            model_id: model.id.clone(),
        };
        assert(state@.blocks =~= Map::empty());
        assert(state@.order =~= Seq::empty());
        let mut events: Vec<AssistantMessageEvent> = Vec::new();
        events.push(AssistantMessageEvent::Start);
        assert(events.deep_view() =~= seq![EventView::Start]);
        (state, events)
    }

    fn take_block(&mut self, index: usize) -> (block: BlockState)
        ensures
            block.deep_view() == old(self)@.block(index),
            final(self)@ == (AnthropicView {
                blocks: old(self)@.blocks.remove(index),
                ..old(self)@
            }),
    {
        let found = self.blocks.remove(&index);
        assert(self@.blocks =~= old(self)@.blocks.remove(index));
        match found {
            Some(block) => block,
            None => BlockState {
                kind: BlockKind::Unknown,
                text_buf: String::new(),
                json_buf: String::new(),
                tool_id: String::new(),
                tool_name: String::new(),
                signature: None,
            },
        }
    }

    fn put_block(&mut self, index: usize, block: BlockState)
        ensures
            final(self)@ == old(self)@.with_block(index, block.deep_view()),
    {
        self.blocks.insert(index, block);
        assert(self@.blocks =~= old(self)@.blocks.insert(index, block.deep_view()));
    }

    /// Whether the counts of an event can be added.
    pub fn accepts(&self, event: &SseEvent) -> (yes: bool)
        ensures
            yes == self@.fits(event.deep_view()),
    {
        match event {
            SseEvent::MessageStart { usage: Some(u), .. } => {
                self.usage.input <= u64::MAX - u.input_tokens && self.usage.cache_read <= u64::MAX
                    - u.cache_read_input_tokens && self.usage.cache_write <= u64::MAX
                    - u.cache_creation_input_tokens
            },
            SseEvent::MessageDelta { usage: Some(u), .. } => self.usage.output <= u64::MAX
                - u.output_tokens,
            _ => true,
        }
    }

    fn answering_model(&self) -> (model: String)
        ensures
            model@ == self@.model(),
    {
        match &self.response_model {
            Some(model) => model.clone(),
            None => self.model_id.clone(),
        }
    }

    fn on_start(&mut self, model: Option<String>, usage: Option<UsageDelta>)
        requires
            old(self)@.fits(SseEventView::MessageStart { model: model.deep_view(), usage }),
        ensures
            final(self)@ == old(self)@.after(
                SseEventView::MessageStart { model: model.deep_view(), usage },
            ),
    {
        if let Some(model) = model {
            self.response_model = Some(model);
        }
        if let Some(u) = usage {
            self.usage.input = self.usage.input + u.input_tokens;
            self.usage.cache_read = self.usage.cache_read + u.cache_read_input_tokens;
            self.usage.cache_write = self.usage.cache_write + u.cache_creation_input_tokens;
        }
    }

    fn on_block_start(&mut self, index: usize, content_block: BlockStart) -> (step: Step)
        ensures
            final(self)@ == old(self)@.after(
                SseEventView::ContentBlockStart {
                    index,
                    content_block: content_block.deep_view(),
                },
            ),
            forall|now: u64|
                step.deep_view() == #[trigger] old(self)@.told(
                    SseEventView::ContentBlockStart {
                        index,
                        content_block: content_block.deep_view(),
                    },
                    now,
                ),
    {
        let ghost before = self@;
        let mut block = self.take_block(index);
        let step = match content_block {
            BlockStart::Text => {
                block.kind = BlockKind::Text;
                stream::say(AssistantMessageEvent::TextStart { content_index: index }, Next::Read)
            },
            BlockStart::Thinking => {
                block.kind = BlockKind::Thinking;
                stream::say(
                    AssistantMessageEvent::ThinkingStart { content_index: index },
                    Next::Read,
                )
            },
            BlockStart::ToolUse { id, name } => {
                block.kind = BlockKind::ToolUse;
                block.tool_id = id.clone();
                block.tool_name = name.clone();
                stream::say(
                    AssistantMessageEvent::ToolCallStart { content_index: index, id, name },
                    Next::Read,
                )
            },
            BlockStart::Other => stream::say_nothing(Next::Read),
        };
        let ghost after = block.deep_view();
        self.put_block(index, block);
        self.order.push(index);
        assert(self@.blocks =~= before.blocks.insert(index, after));
        step
    }

    fn on_block_delta(&mut self, index: usize, delta: BlockDelta) -> (step: Step)
        ensures
            final(self)@ == old(self)@.after(
                SseEventView::ContentBlockDelta { index, delta: delta.deep_view() },
            ),
            forall|now: u64|
                step.deep_view() == #[trigger] old(self)@.told(
                    SseEventView::ContentBlockDelta { index, delta: delta.deep_view() },
                    now,
                ),
    {
        let ghost before = self@;
        let mut block = self.take_block(index);
        let step = match delta {
            BlockDelta::TextDelta { text } => {
                block.text_buf.append(text.as_str());
                stream::say(
                    AssistantMessageEvent::TextDelta { content_index: index, delta: text },
                    Next::Read,
                )
            },
            BlockDelta::ThinkingDelta { thinking } => {
                block.text_buf.append(thinking.as_str());
                stream::say(
                    AssistantMessageEvent::ThinkingDelta { content_index: index, delta: thinking },
                    Next::Read,
                )
            },
            BlockDelta::InputJsonDelta { partial_json } => {
                block.json_buf.append(partial_json.as_str());
                stream::say(
                    AssistantMessageEvent::ToolCallDelta {
                        content_index: index,
                        delta: partial_json,
                    },
                    Next::Read,
                )
            },
            BlockDelta::SignatureDelta { signature } => {
                block.signature = Some(signature);
                stream::say_nothing(Next::Read)
            },
            BlockDelta::Other => stream::say_nothing(Next::Read),
        };
        let ghost after = block.deep_view();
        self.put_block(index, block);
        assert(self@.blocks =~= before.blocks.insert(index, after));
        step
    }

    fn on_block_stop(&self, index: usize) -> (step: Step)
        ensures
            forall|now: u64|
                step.deep_view() == #[trigger] self@.told(
                    SseEventView::ContentBlockStop { index },
                    now,
                ),
    {
        match self.blocks.get(&index) {
            Some(block) => {
                assert(self@.block(index) == block.deep_view());
                match block.kind {
                    BlockKind::Text => stream::say(
                        AssistantMessageEvent::TextEnd {
                            content_index: index,
                            content: block.text_buf.clone(),
                        },
                        Next::Read,
                    ),
                    BlockKind::Thinking => stream::say(
                        AssistantMessageEvent::ThinkingEnd {
                            content_index: index,
                            content: block.text_buf.clone(),
                        },
                        Next::Read,
                    ),
                    BlockKind::ToolUse => stream::say(
                        AssistantMessageEvent::ToolCallEnd {
                            content_index: index,
                            id: block.tool_id.clone(),
                            name: block.tool_name.clone(),
                            arguments: json::parse_arguments(block.json_buf.as_str()),
                        },
                        Next::Read,
                    ),
                    BlockKind::Unknown => stream::say_nothing(Next::Read),
                }
            },
            None => stream::say_nothing(Next::Read),
        }
    }

    fn on_message_delta(&mut self, stop_reason: Option<String>, usage: Option<UsageDelta>)
        requires
            old(self)@.fits(
                SseEventView::MessageDelta { stop_reason: stop_reason.deep_view(), usage },
            ),
        ensures
            final(self)@ == old(self)@.after(
                SseEventView::MessageDelta { stop_reason: stop_reason.deep_view(), usage },
            ),
    {
        if let Some(u) = usage {
            self.usage.output = self.usage.output + u.output_tokens;
        }
        if let Some(reason) = stop_reason {
            self.stop = kind_of_stop(reason.as_str());
        }
    }

    fn on_error(&self, kind: &str, message: &str, now: u64) -> (step: Step)
        ensures
            step.deep_view() == self@.told(
                SseEventView::Error { kind: kind@, message: message@ },
                now,
            ),
    {
        let mut usage = self.usage;
        usage.priced = true;
        let content: Vec<Content> = Vec::new();
        assert(content.deep_view() =~= Seq::<ContentView>::empty());
        let error = AssistantMessage {
            content,
            api: self.api.clone(),
            provider: self.provider.clone(),
            model: self.answering_model(),
            usage,
            stop_reason: StopReason::Error,
            error_message: Some(kind.to_owned().concat(": ").concat(message)),
            timestamp: now,
        };
        stream::say(
            AssistantMessageEvent::Error { reason: StopReason::Error, error },
            Next::Close,
        )
    }

    /// Takes what arrives, and says what to tell and what to do next.
    pub fn receive(&mut self, incoming: Incoming<SseEvent>, now: u64) -> (step: Step)
        requires
            incoming.deep_view() matches IncomingView::Record(Some(event)) ==> old(self)@.fits(
                event,
            ),
        ensures
            (final(self)@, step.deep_view()) == step_of(old(self)@, incoming.deep_view(), now),
    {
        let event = match incoming {
            Incoming::Cancelled => {
                return stream::say_nothing(Next::Fail(StreamError::Cancelled));
            },
            Incoming::Broken(reason) => {
                return stream::say_nothing(Next::Fail(stream::broken_error(reason.as_str())));
            },
            Incoming::Record(None) => {
                return stream::say_nothing(Next::Read);
            },
            Incoming::Record(Some(event)) => event,
        };
        match event {
            SseEvent::MessageStart { model, usage } => {
                self.on_start(model, usage);
                stream::say_nothing(Next::Read)
            },
            SseEvent::ContentBlockStart { index, content_block } => self.on_block_start(
                index,
                content_block,
            ),
            SseEvent::ContentBlockDelta { index, delta } => self.on_block_delta(index, delta),
            SseEvent::ContentBlockStop { index } => self.on_block_stop(index),
            SseEvent::MessageDelta { stop_reason, usage } => {
                self.on_message_delta(stop_reason, usage);
                stream::say_nothing(Next::Read)
            },
            SseEvent::Error { kind, message } => self.on_error(
                kind.as_str(),
                message.as_str(),
                now,
            ),
            SseEvent::MessageStop | SseEvent::Ping | SseEvent::Other => stream::say_nothing(
                Next::Read,
            ),
        }
    }

    fn collect(&self) -> (content: Vec<Content>)
        ensures
            content.deep_view() == self@.content(),
    {
        let mut out: Vec<Content> = Vec::new();
        assert(out.deep_view() =~= content_of(self@.order.take(0), self@.blocks));
        for i in 0..self.order.len()
            invariant
                out.deep_view() == content_of(self@.order.take(i as int), self@.blocks),
        {
            let index = self.order[i];
            assert(self@.order.take(i + 1).drop_last() =~= self@.order.take(i as int));
            let ghost before = out.deep_view();
            match self.blocks.get(&index) {
                Some(block) => {
                    assert(self@.blocks[index] == block.deep_view());
                    match block.kind {
                        BlockKind::Text => {
                            out.push(Content::Text { text: block.text_buf.clone() });
                        },
                        BlockKind::Thinking => {
                            out.push(
                                Content::Thinking {
                                    thinking: block.text_buf.clone(),
                                    thinking_signature: block.signature.clone(),
                                },
                            );
                        },
                        BlockKind::ToolUse => {
                            out.push(
                                Content::ToolCall {
                                    id: block.tool_id.clone(),
                                    name: block.tool_name.clone(),
                                    arguments: json::parse_arguments(block.json_buf.as_str()),
                                },
                            );
                        },
                        BlockKind::Unknown => {},
                    }
                    assert(out.deep_view() =~= before + piece_of(block.deep_view()));
                },
                None => {
                    assert(before + Seq::<ContentView>::empty() =~= before);
                },
            }
        }
        assert(self@.order.take(self@.order.len() as int) =~= self@.order);
        out
    }

    /// Whether the counts of the whole answer can be added up.
    pub fn can_finish(&self) -> (yes: bool)
        ensures
            yes == (self@.usage.input + self@.usage.output <= u64::MAX),
    {
        self.usage.input <= u64::MAX - self.usage.output
    }

    /// Ends the reading of an answer that has arrived whole.
    pub fn finish(self, now: u64) -> (events: Vec<AssistantMessageEvent>)
        requires
            self@.usage.input + self@.usage.output <= u64::MAX,
        ensures
            events.deep_view() == seq![
                EventView::Done { reason: self@.stop, message: self@.message(now) },
            ],
    {
        let mut usage = self.usage;
        usage.total_tokens = usage.input + usage.output;
        usage.priced = true;
        let message = AssistantMessage {
            content: self.collect(),
            api: self.api.clone(),
            provider: self.provider.clone(),
            model: self.answering_model(),
            usage,
            stop_reason: self.stop,
            error_message: None,
            timestamp: now,
        };
        stream::say(AssistantMessageEvent::Done { reason: self.stop, message }, Next::Close).events
    }
}

/// The answer after a sequence of events.
pub open spec fn after_all(state: AnthropicView, events: Seq<SseEventView>) -> AnthropicView
    decreases events.len(),
{
    if events.len() == 0 {
        state
    } else {
        after_all(state, events.drop_last()).after(events.last())
    }
}

/// All that a sequence of events tells.
pub open spec fn told_all(state: AnthropicView, events: Seq<SseEventView>, now: u64) -> Seq<
    EventView,
>
    decreases events.len(),
{
    if events.len() == 0 {
        Seq::empty()
    } else {
        told_all(state, events.drop_last(), now) + after_all(state, events.drop_last()).told(
            events.last(),
            now,
        ).events
    }
}

/// A block holds what was told of it: its text is all the text and thinking
/// told for its place, and its JSON is all the text of arguments told for its
/// place, piece by piece in the order in which it arrived.
pub proof fn law_blocks_hold_what_was_told(
    model: ModelView,
    events: Seq<SseEventView>,
    index: usize,
    now: u64,
)
    ensures
        after_all(fresh(model), events).block(index).text == stream::told_text(
            told_all(fresh(model), events, now),
            index,
        ),
        after_all(fresh(model), events).block(index).json == stream::told_call(
            told_all(fresh(model), events, now),
            index,
        ),
    decreases events.len(),
{
    if events.len() > 0 {
        let front = events.drop_last();
        law_blocks_hold_what_was_told(model, front, index, now);
        let state = after_all(fresh(model), front);
        let step = state.told(events.last(), now);
        stream::lemma_told_add(told_all(fresh(model), front, now), step.events, index);
        let text = state.block(index).text;
        let call = state.block(index).json;
        assert(text + Seq::<char>::empty() =~= text);
        assert(call + Seq::<char>::empty() =~= call);
        if step.events.len() > 0 {
            assert(step.events =~= seq![step.events[0]]);
            stream::lemma_told_one(step.events[0], index);
        }
    }
}

/// The arguments of a tool call are what all the pieces of text told for it
/// spell together: at the end of the block they are told, and none of the
/// pieces is read on its own.
pub proof fn law_arguments_are_assembled(
    model: ModelView,
    events: Seq<SseEventView>,
    index: usize,
    now: u64,
)
    requires
        after_all(fresh(model), events).block(index).kind == BlockKind::ToolUse,
    ensures
        ({
            let block = after_all(fresh(model), events).block(index);
            let text = stream::told_call(told_all(fresh(model), events, now), index);
            after_all(fresh(model), events).told(
                SseEventView::ContentBlockStop { index },
                now,
            ).events == seq![
                EventView::ToolCallEnd {
                    content_index: index,
                    id: block.id,
                    name: block.name,
                    arguments: json::arguments_or_none(text, json::parsed(text)),
                },
            ]
        }),
{
    law_blocks_hold_what_was_told(model, events, index, now);
}

/// What the end of a block tells is what the answer then holds for it, as long
/// as nothing else arrives for that block.
pub proof fn law_end_of_block_is_in_the_answer(state: AnthropicView, index: usize, now: u64)
    requires
        state.order.contains(index),
        state.block(index).kind != BlockKind::Unknown,
    ensures
        state.told(SseEventView::ContentBlockStop { index }, now).events.len() == 1,
        exists|k: int|
            0 <= k < state.message(now).content.len() && (match state.told(
                SseEventView::ContentBlockStop { index },
                now,
            ).events[0] {
                EventView::TextEnd { content, .. } => #[trigger] state.message(now).content[k] == (
                ContentView::Text { text: content }),
                EventView::ThinkingEnd { content, .. } => state.message(now).content[k] matches
                    ContentView::Thinking { thinking, .. } && thinking == content,
                EventView::ToolCallEnd { id, name, arguments, .. } => state.message(
                    now,
                ).content[k] == (ContentView::ToolCall { id, name, arguments }),
                _ => false,
            }),
{
    let at = choose|at: int| 0 <= at < state.order.len() && state.order[at] == index;
    lemma_content_at(state.order, state.blocks, at);
    let k = choose|k: int|
        0 <= k < state.content().len() && #[trigger] state.content()[k] == piece_of(
            state.blocks[index],
        )[0];
    assert(state.message(now).content[k] == piece_of(state.blocks[index])[0]);
}

proof fn lemma_content_at(order: Seq<usize>, blocks: Map<usize, BlockView>, at: int)
    requires
        0 <= at < order.len(),
        blocks.contains_key(order[at]),
        blocks[order[at]].kind != BlockKind::Unknown,
    ensures
        exists|k: int|
            0 <= k < content_of(order, blocks).len() && #[trigger] content_of(order, blocks)[k]
                == piece_of(blocks[order[at]])[0],
    decreases order.len(),
{
    let front = content_of(order.drop_last(), blocks);
    if at < order.len() - 1 {
        lemma_content_at(order.drop_last(), blocks, at);
        let k = choose|k: int|
            0 <= k < front.len() && #[trigger] front[k] == piece_of(blocks[order[at]])[0];
        assert(content_of(order, blocks)[k] == front[k]);
    } else {
        assert(content_of(order, blocks)[front.len() as int] == piece_of(blocks[order[at]])[0]);
    }
}

/// While an answer arrives nothing that is told begins or ends it, but for an
/// error that the provider reports: that one is told last.
pub proof fn law_answer_is_told_last(
    state: AnthropicView,
    incoming: IncomingView<SseEventView>,
    now: u64,
)
    ensures
        ({
            let step = step_of(state, incoming, now).1;
            ||| stream::midway(step.events) && step.next != NextView::Close
            ||| step.events.len() == 1 && step.events[0] is Error && step.next == NextView::Close
        }),
{
}

} // verus!
