//! Reading the events of an OpenAI Responses answer.

use vstd::prelude::*;

use crate::json;
use crate::providers::stream;
use crate::providers::stream::{Incoming, IncomingView, Next, NextView, Step, StepView};
use crate::types::{
    AssistantMessage, AssistantMessageEvent, AssistantView, Content, ContentView, EventView, Model,
    ModelView, StopReason, StreamError, StreamErrorView, Usage,
};

verus! {

/// A piece of text or of arguments.
#[derive(Debug, PartialEq)]
pub struct DeltaEnvelope {
    pub delta: Option<String>,
    pub item_id: Option<String>,
    pub output_index: Option<usize>,
}

/// An item of the answer.
#[derive(Debug, PartialEq)]
pub struct OutputItem {
    pub item_type: String,
    pub id: Option<String>,
    pub call_id: Option<String>,
    pub name: Option<String>,
}

/// One event of an answer.
#[derive(Debug, PartialEq)]
pub enum ResponsesEvent {
    OutputTextDelta(DeltaEnvelope),
    OutputItemAdded { item: Option<OutputItem> },
    FunctionCallArgumentsDelta(DeltaEnvelope),
    Completed,
}

/// What a record is to be read as.
#[derive(Clone, Copy, Debug, PartialEq, Eq, Structural)]
pub enum RecordKind {
    OutputTextDelta,
    OutputItemAdded,
    FunctionCallArgumentsDelta,
    Completed,
    Ignored,
}

/// The model of [`DeltaEnvelope`].
pub struct DeltaView {
    pub delta: Option<Seq<char>>,
    pub item_id: Option<Seq<char>>,
    pub output_index: Option<usize>,
}

/// The model of [`OutputItem`].
pub struct ItemView {
    pub item_type: Seq<char>,
    pub id: Option<Seq<char>>,
    pub call_id: Option<Seq<char>>,
    pub name: Option<Seq<char>>,
}

/// The model of [`ResponsesEvent`].
pub enum ResponsesEventView {
    OutputTextDelta(DeltaView),
    OutputItemAdded { item: Option<ItemView> },
    FunctionCallArgumentsDelta(DeltaView),
    Completed,
}

impl DeepView for DeltaEnvelope {
    type V = DeltaView;

    open spec fn deep_view(&self) -> DeltaView {
        DeltaView {
            delta: self.delta.deep_view(),
            item_id: self.item_id.deep_view(),
            output_index: self.output_index,
        }
    }
}

impl DeepView for OutputItem {
    type V = ItemView;

    open spec fn deep_view(&self) -> ItemView {
        ItemView {
            item_type: self.item_type@,
            id: self.id.deep_view(),
            call_id: self.call_id.deep_view(),
            name: self.name.deep_view(),
        }
    }
}

impl DeepView for ResponsesEvent {
    type V = ResponsesEventView;

    open spec fn deep_view(&self) -> ResponsesEventView {
        match *self {
            ResponsesEvent::OutputTextDelta(delta) => ResponsesEventView::OutputTextDelta(
                delta.deep_view(),
            ),
            ResponsesEvent::OutputItemAdded { item } => ResponsesEventView::OutputItemAdded {
                item: item.deep_view(),
            },
            ResponsesEvent::FunctionCallArgumentsDelta(delta) =>
            ResponsesEventView::FunctionCallArgumentsDelta(delta.deep_view()),
            ResponsesEvent::Completed => ResponsesEventView::Completed,
        }
    }
}

/// What a record of a given name is to be read as. A record without data is
/// ignored.
pub open spec fn kind_of(name: Seq<char>, data: Seq<char>) -> RecordKind {
    if data.len() == 0 {
        RecordKind::Ignored
    } else if name == "response.output_text.delta"@ {
        RecordKind::OutputTextDelta
    } else if name == "response.output_item.added"@ {
        RecordKind::OutputItemAdded
    } else if name == "response.function_call_arguments.delta"@ {
        RecordKind::FunctionCallArgumentsDelta
    } else if name == "response.completed"@ {
        RecordKind::Completed
    } else {
        RecordKind::Ignored
    }
}

/// What a record of a given name is to be read as.
pub fn record_kind(name: &str, data: &str) -> (kind: RecordKind)
    ensures
        kind == kind_of(name@, data@),
{
    if data.is_empty() {
        RecordKind::Ignored
    } else if crate::text::same(name, "response.output_text.delta") {
        RecordKind::OutputTextDelta
    } else if crate::text::same(name, "response.output_item.added") {
        RecordKind::OutputItemAdded
    } else if crate::text::same(name, "response.function_call_arguments.delta") {
        RecordKind::FunctionCallArgumentsDelta
    } else if crate::text::same(name, "response.completed") {
        RecordKind::Completed
    } else {
        RecordKind::Ignored
    }
}

/// A tool call that is being collected.
#[derive(Debug, PartialEq)]
struct PartialToolCall {
    id: String,
    name: String,
    args: String,
}

/// The model of a tool call that is being collected.
pub struct PartialCallView {
    pub id: Seq<char>,
    pub name: Seq<char>,
    pub args: Seq<char>,
}

impl DeepView for PartialToolCall {
    type V = PartialCallView;

    closed spec fn deep_view(&self) -> PartialCallView {
        PartialCallView { id: self.id@, name: self.name@, args: self.args@ }
    }
}

/// The reading of one answer.
pub struct ResponsesStream {
    text_buf: String,
    text_started: bool,
    item_index: Vec<(String, usize)>,
    tool_calls: Vec<PartialToolCall>,
    api: String,
    provider: String,
    model_id: String,
}

/// The model of [`ResponsesStream`].
pub struct ResponsesView {
    /// All the text that has arrived.
    pub text: Seq<char>,
    /// Whether any text has arrived.
    pub text_started: bool,
    /// Which call each item is.
    pub item_index: Map<Seq<char>, usize>,
    pub calls: Seq<PartialCallView>,
    pub api: Seq<char>,
    pub provider: Seq<char>,
    pub model_id: Seq<char>,
}

spec fn index_of(list: Seq<(String, usize)>) -> Map<Seq<char>, usize>
    decreases list.len(),
{
    if list.len() == 0 {
        Map::empty()
    } else {
        index_of(list.drop_last()).insert(list.last().0@, list.last().1)
    }
}

impl View for ResponsesStream {
    type V = ResponsesView;

    closed spec fn view(&self) -> ResponsesView {
        ResponsesView {
            text: self.text_buf@,
            text_started: self.text_started,
            item_index: index_of(self.item_index@),
            calls: self.tool_calls.deep_view(),
            api: self.api@,
            provider: self.provider@,
            model_id: self.model_id@,
        }
    }
}

/// An answer of which nothing has arrived.
pub open spec fn fresh(model: ModelView) -> ResponsesView {
    ResponsesView {
        text: Seq::empty(),
        text_started: false,
        item_index: Map::empty(),
        calls: Seq::empty(),
        api: model.api,
        provider: model.provider,
        model_id: model.id,
    }
}

/// The value that is there, or an empty text.
pub open spec fn or_empty(text: Option<Seq<char>>) -> Seq<char> {
    match text {
        Some(text) => text,
        None => Seq::empty(),
    }
}

impl ResponsesView {
    /// The place of a call in the answer, as far as text has arrived.
    pub open spec fn place(self, call: int) -> usize {
        (call + if self.text_started {
            1int
        } else {
            0int
        }) as usize
    }

    /// Which call a piece of arguments belongs to: the one of its item, or the
    /// one that it names, or else the last one.
    pub open spec fn call_of(self, delta: DeltaView) -> int {
        if delta.item_id is Some && self.item_index.contains_key(delta.item_id->0) {
            self.item_index[delta.item_id->0] as int
        } else if delta.output_index is Some {
            delta.output_index->0 as int
        } else if self.calls.len() > 0 {
            self.calls.len() - 1
        } else {
            0
        }
    }

    /// The call that an item starts, where it is one.
    pub open spec fn new_call(item: Option<ItemView>) -> Option<PartialCallView> {
        match item {
            Some(item) => if item.item_type == "function_call"@ {
                Some(
                    PartialCallView {
                        id: or_empty(
                            match item.call_id {
                                Some(id) => Some(id),
                                None => item.id,
                            },
                        ),
                        name: or_empty(item.name),
                        args: Seq::empty(),
                    },
                )
            } else {
                None
            },
            None => None,
        }
    }

    /// The answer after an event.
    pub open spec fn after(self, event: ResponsesEventView) -> ResponsesView {
        match event {
            ResponsesEventView::OutputTextDelta(delta) => match delta.delta {
                Some(text) => if text.len() > 0 {
                    ResponsesView { text: self.text + text, text_started: true, ..self }
                } else {
                    self
                },
                None => self,
            },
            ResponsesEventView::OutputItemAdded { item } => match Self::new_call(item) {
                Some(call) => ResponsesView {
                    calls: self.calls.push(call),
                    item_index: match item->0.id {
                        Some(id) => self.item_index.insert(id, self.calls.len() as usize),
                        None => self.item_index,
                    },
                    ..self
                },
                None => self,
            },
            ResponsesEventView::FunctionCallArgumentsDelta(delta) => {
                let k = self.call_of(delta);
                if delta.delta is Some && k < self.calls.len() {
                    let call = self.calls[k];
                    ResponsesView {
                        calls: self.calls.update(
                            k,
                            PartialCallView { args: call.args + delta.delta->0, ..call },
                        ),
                        ..self
                    }
                } else {
                    self
                }
            },
            ResponsesEventView::Completed => self,
        }
    }

    /// What an event tells.
    pub open spec fn told(self, event: ResponsesEventView) -> StepView {
        match event {
            ResponsesEventView::OutputTextDelta(delta) => match delta.delta {
                Some(text) => if text.len() > 0 {
                    let told = EventView::TextDelta { content_index: 0, delta: text };
                    stream::telling(
                        if self.text_started {
                            seq![told]
                        } else {
                            seq![EventView::TextStart { content_index: 0 }, told]
                        },
                    )
                } else {
                    stream::silent()
                },
                None => stream::silent(),
            },
            ResponsesEventView::OutputItemAdded { item } => match Self::new_call(item) {
                Some(call) => stream::telling(
                    seq![
                        EventView::ToolCallStart {
                            content_index: self.place(self.calls.len() as int),
                            id: call.id,
                            name: call.name,
                        },
                    ],
                ),
                None => stream::silent(),
            },
            ResponsesEventView::FunctionCallArgumentsDelta(delta) => {
                let k = self.call_of(delta);
                if delta.delta is Some && k < self.calls.len() {
                    stream::telling(
                        seq![
                            EventView::ToolCallDelta {
                                content_index: self.place(k),
                                delta: delta.delta->0,
                            },
                        ],
                    )
                } else {
                    stream::silent()
                }
            },
            ResponsesEventView::Completed => StepView {
                events: Seq::empty(),
                next: NextView::Finish,
            },
        }
    }

    /// The calls as content of the answer.
    pub open spec fn call_content(self) -> Seq<ContentView> {
        self.calls.map_values(
            |call: PartialCallView|
                ContentView::ToolCall {
                    id: call.id,
                    name: call.name,
                    arguments: json::arguments_or_none(call.args, json::parsed(call.args)),
                },
        )
    }

    /// The content of the answer: its text, where any has arrived, and its calls.
    pub open spec fn content(self) -> Seq<ContentView> {
        if self.text_started {
            seq![ContentView::Text { text: self.text }] + self.call_content()
        } else {
            self.call_content()
        }
    }

    /// Why the model stopped: to have its calls made, where there are any.
    pub open spec fn stop(self) -> StopReason {
        if self.calls.len() > 0 {
            StopReason::ToolUse
        } else {
            StopReason::Stop
        }
    }

    /// The whole answer.
    pub open spec fn message(self, now: u64) -> AssistantView {
        AssistantView {
            content: self.content(),
            api: self.api,
            provider: self.provider,
            model: self.model_id,
            usage: Usage::zero(),
            stop_reason: self.stop(),
            error_message: None,
            timestamp: now,
        }
    }

    /// What the end of a call tells.
    pub open spec fn call_end(self, k: int) -> EventView {
        let call = self.calls[k];
        EventView::ToolCallEnd {
            content_index: self.place(k),
            id: call.id,
            name: call.name,
            arguments: json::arguments_or_none(call.args, json::parsed(call.args)),
        }
    }

    /// What the end of the answer tells.
    pub open spec fn ending(self, now: u64) -> Seq<EventView> {
        (if self.text_started {
            seq![EventView::TextEnd { content_index: 0, content: self.text }]
        } else {
            Seq::empty()
        }) + Seq::new(self.calls.len(), |k: int| self.call_end(k)) + seq![
            EventView::Done { reason: self.stop(), message: self.message(now) },
        ]
    }
}

/// What comes of a record, a broken transport and a reader who gave up.
pub open spec fn step_of(state: ResponsesView, incoming: IncomingView<ResponsesEventView>) -> (
    ResponsesView,
    StepView,
) {
    match incoming {
        IncomingView::Cancelled => (state, stream::failing(StreamErrorView::Cancelled)),
        IncomingView::Broken(reason) => (state, stream::failing(stream::broken(reason))),
        IncomingView::Record(None) => (state, stream::silent()),
        IncomingView::Record(Some(event)) => (state.after(event), state.told(event)),
    }
}

proof fn lemma_index_push(list: Seq<(String, usize)>, entry: (String, usize))
    ensures
        index_of(list.push(entry)) == index_of(list).insert(entry.0@, entry.1),
{
    assert(list.push(entry).drop_last() =~= list);
}

proof fn lemma_index_last(list: Seq<(String, usize)>, at: int)
    requires
        0 <= at < list.len(),
        forall|i: int| at < i < list.len() ==> (#[trigger] list[i]).0@ != list[at].0@,
    ensures
        index_of(list).contains_pair(list[at].0@, list[at].1),
    decreases list.len(),
{
    if at < list.len() - 1 {
        lemma_index_last(list.drop_last(), at);
    }
}

proof fn lemma_index_none(list: Seq<(String, usize)>, id: Seq<char>)
    requires
        forall|i: int| 0 <= i < list.len() ==> (#[trigger] list[i]).0@ != id,
    ensures
        !index_of(list).contains_key(id),
    decreases list.len(),
{
    if list.len() > 0 {
        lemma_index_none(list.drop_last(), id);
    }
}

fn text_or_empty(text: Option<String>) -> (out: String)
    ensures
        out@ == or_empty(text.deep_view()),
{
    match text {
        Some(text) => text,
        None => String::new(),
    }
}

impl ResponsesStream {
    /// Starts to read an answer.
    pub fn open(model: &Model) -> (opened: (ResponsesStream, Vec<AssistantMessageEvent>))
        ensures
            opened.0@ == fresh(model.deep_view()),
            opened.1.deep_view() == seq![EventView::Start],
    {
        let state = ResponsesStream {
            text_buf: String::new(),
            text_started: false,
            item_index: Vec::new(),
            tool_calls: Vec::new(),
            api: model.api.clone(),
            provider: model.provider.clone(),
            model_id: model.id.clone(),
        };
        assert(state@.calls =~= Seq::empty());
        (state, stream::say(AssistantMessageEvent::Start, Next::Read).events)
    }

    fn item_call(&self, id: &str) -> (call: Option<usize>)
        ensures
            match call {
                Some(call) => self@.item_index.contains_pair(id@, call),
                None => !self@.item_index.contains_key(id@),
            },
    {
        let mut i: usize = self.item_index.len();
        while i > 0
            invariant
                i <= self.item_index@.len(),
                forall|j: int|
                    i <= j < self.item_index@.len() ==> (#[trigger] self.item_index@[j]).0@ != id@,
            decreases i,
        {
            i = i - 1;
            if crate::text::same(self.item_index[i].0.as_str(), id) {
                proof {
                    lemma_index_last(self.item_index@, i as int);
                }
                return Some(self.item_index[i].1);
            }
        }
        proof {
            lemma_index_none(self.item_index@, id@);
        }
        None
    }

    fn find_call(&self, delta: &DeltaEnvelope) -> (k: usize)
        ensures
            k as int == self@.call_of(delta.deep_view()),
    {
        let of_item = match &delta.item_id {
            Some(id) => self.item_call(id.as_str()),
            None => None,
        };
        match of_item {
            Some(k) => k,
            None => match delta.output_index {
                Some(k) => k,
                None => if self.tool_calls.len() > 0 {
                    self.tool_calls.len() - 1
                } else {
                    0
                },
            },
        }
    }

    fn on_text(&mut self, delta: DeltaEnvelope) -> (step: Step)
        ensures
            final(self)@ == old(self)@.after(
                ResponsesEventView::OutputTextDelta(delta.deep_view()),
            ),
            step.deep_view() == old(self)@.told(
                ResponsesEventView::OutputTextDelta(delta.deep_view()),
            ),
    {
        match delta.delta {
            Some(text) => if text.as_str().is_empty() {
                stream::say_nothing(Next::Read)
            } else {
                let mut events: Vec<AssistantMessageEvent> = Vec::new();
                if !self.text_started {
                    self.text_started = true;
                    stream::tell(&mut events, AssistantMessageEvent::TextStart { content_index: 0 });
                }
                self.text_buf.append(text.as_str());
                stream::tell(
                    &mut events,
                    AssistantMessageEvent::TextDelta { content_index: 0, delta: text },
                );
                let step = Step { events, next: Next::Read };
                assert(step.deep_view().events =~= old(self)@.told(
                    ResponsesEventView::OutputTextDelta(delta.deep_view()),
                ).events);
                step
            },
            None => stream::say_nothing(Next::Read),
        }
    }

    fn on_item(&mut self, item: Option<OutputItem>) -> (step: Step)
        ensures
            final(self)@ == old(self)@.after(
                ResponsesEventView::OutputItemAdded { item: item.deep_view() },
            ),
            step.deep_view() == old(self)@.told(
                ResponsesEventView::OutputItemAdded { item: item.deep_view() },
            ),
    {
        let item = match item {
            Some(item) => item,
            None => {
                return stream::say_nothing(Next::Read);
            },
        };
        if !crate::text::same(item.item_type.as_str(), "function_call") {
            return stream::say_nothing(Next::Read);
        }
        let id = match item.call_id {
            Some(id) => id,
            None => text_or_empty(item.id.clone()),
        };
        let name = text_or_empty(item.name);
        let call = PartialToolCall { id: id.clone(), name: name.clone(), args: String::new() };
        let ghost view = call.deep_view();
        self.tool_calls.push(call);
        assert(self@.calls =~= old(self)@.calls.push(view));
        let k: usize = self.tool_calls.len() - 1;
        if let Some(item_id) = item.id {
            let entry = (item_id, k);
            proof {
                lemma_index_push(self.item_index@, entry);
            }
            self.item_index.push(entry);
        }
        let place: usize = if self.text_started {
            self.tool_calls.len()
        } else {
            k
        };
        stream::say(
            AssistantMessageEvent::ToolCallStart { content_index: place, id, name },
            Next::Read,
        )
    }

    fn on_arguments(&mut self, delta: DeltaEnvelope) -> (step: Step)
        ensures
            final(self)@ == old(self)@.after(
                ResponsesEventView::FunctionCallArgumentsDelta(delta.deep_view()),
            ),
            step.deep_view() == old(self)@.told(
                ResponsesEventView::FunctionCallArgumentsDelta(delta.deep_view()),
            ),
    {
        if delta.delta.is_none() {
            return stream::say_nothing(Next::Read);
        }
        let k = self.find_call(&delta);
        if k >= self.tool_calls.len() {
            return stream::say_nothing(Next::Read);
        }
        match delta.delta {
            Some(text) => {
                let ghost before = self@.calls;
                let call = PartialToolCall {
                    id: self.tool_calls[k].id.clone(),
                    name: self.tool_calls[k].name.clone(),
                    args: self.tool_calls[k].args.clone().concat(text.as_str()),
                };
                assert(before[k as int] == self.tool_calls@[k as int].deep_view());
                let ghost view = call.deep_view();
                self.tool_calls[k] = call;
                assert(self@.calls =~= before.update(k as int, view));
                let place: usize = if self.text_started {
                    k + 1
                } else {
                    k
                };
                stream::say(
                    AssistantMessageEvent::ToolCallDelta { content_index: place, delta: text },
                    Next::Read,
                )
            },
            None => stream::say_nothing(Next::Read),
        }
    }

    /// Takes what arrives, and says what to tell and what to do next.
    pub fn receive(&mut self, incoming: Incoming<ResponsesEvent>) -> (step: Step)
        ensures
            (final(self)@, step.deep_view()) == step_of(old(self)@, incoming.deep_view()),
    {
        match incoming {
            Incoming::Cancelled => stream::say_nothing(Next::Fail(StreamError::Cancelled)),
            Incoming::Broken(reason) => stream::say_nothing(
                Next::Fail(stream::broken_error(reason.as_str())),
            ),
            Incoming::Record(None) => stream::say_nothing(Next::Read),
            Incoming::Record(Some(event)) => match event {
                ResponsesEvent::OutputTextDelta(delta) => self.on_text(delta),
                ResponsesEvent::OutputItemAdded { item } => self.on_item(item),
                ResponsesEvent::FunctionCallArgumentsDelta(delta) => self.on_arguments(delta),
                ResponsesEvent::Completed => stream::say_nothing(Next::Finish),
            },
        }
    }

    /// Ends the reading of an answer that has arrived whole.
    pub fn finish(self, now: u64) -> (events: Vec<AssistantMessageEvent>)
        ensures
            events.deep_view() == self@.ending(now),
    {
        let ghost all = self@;
        let mut events: Vec<AssistantMessageEvent> = Vec::new();
        let mut content: Vec<Content> = Vec::new();
        if self.text_started {
            stream::tell(
                &mut events,
                AssistantMessageEvent::TextEnd { content_index: 0, content: self.text_buf.clone() },
            );
            content.push(Content::Text { text: self.text_buf.clone() });
        }
        let ghost head = events.deep_view();
        let ghost front = content.deep_view();
        let ghost ends = Seq::new(all.calls.len(), |k: int| all.call_end(k));
        assert(head =~= if all.text_started {
            seq![EventView::TextEnd { content_index: 0, content: all.text }]
        } else {
            Seq::empty()
        });
        assert(front =~= if all.text_started {
            seq![ContentView::Text { text: all.text }]
        } else {
            Seq::empty()
        });
        let calls = &self.tool_calls;
        for k in 0..calls.len()
            invariant
                *calls == self.tool_calls,
                all == self@,
                ends == Seq::new(all.calls.len(), |k: int| all.call_end(k)),
                events.deep_view() =~= head + ends.take(k as int),
                content.deep_view() =~= front + all.call_content().take(k as int),
        {
            let call = &calls[k];
            assert(all.calls[k as int] == call.deep_view());
            let arguments = json::parse_arguments(call.args.as_str());
            let place: usize = if self.text_started {
                k + 1
            } else {
                k
            };
            let end = AssistantMessageEvent::ToolCallEnd {
                content_index: place,
                id: call.id.clone(),
                name: call.name.clone(),
                arguments: arguments.clone(),
            };
            assert(end.deep_view() == ends[k as int]);
            stream::tell(&mut events, end);
            let piece = Content::ToolCall {
                id: call.id.clone(),
                name: call.name.clone(),
                arguments,
            };
            assert(piece.deep_view() == all.call_content()[k as int]);
            let ghost before = content.deep_view();
            content.push(piece);
            assert(content.deep_view() =~= before.push(all.call_content()[k as int]));
        }
        assert(content.deep_view() =~= all.content());
        let stop = if self.tool_calls.len() > 0 {
            StopReason::ToolUse
        } else {
            StopReason::Stop
        };
        let message = AssistantMessage {
            content,
            api: self.api.clone(),
            provider: self.provider.clone(),
            model: self.model_id.clone(),
            usage: Usage::default(),
            stop_reason: stop,
            error_message: None,
            timestamp: now,
        };
        stream::tell(&mut events, AssistantMessageEvent::Done { reason: stop, message });
        assert(events.deep_view() =~= all.ending(now));
        events
    }
}

/// The answer after a sequence of events.
pub open spec fn after_all(
    state: ResponsesView,
    events: Seq<ResponsesEventView>,
) -> ResponsesView
    decreases events.len(),
{
    if events.len() == 0 {
        state
    } else {
        after_all(state, events.drop_last()).after(events.last())
    }
}

/// All that a sequence of events tells.
pub open spec fn told_all(state: ResponsesView, events: Seq<ResponsesEventView>) -> Seq<EventView>
    decreases events.len(),
{
    if events.len() == 0 {
        Seq::empty()
    } else {
        told_all(state, events.drop_last()) + after_all(state, events.drop_last()).told(
            events.last(),
        ).events
    }
}

proof fn lemma_step_told(state: ResponsesView, event: ResponsesEventView, index: usize)
    ensures
        stream::told_text(state.told(event).events, 0) == match event {
            ResponsesEventView::OutputTextDelta(delta) => or_empty(delta.delta),
            _ => Seq::empty(),
        },
        stream::told_call(state.told(event).events, index) == match event {
            ResponsesEventView::FunctionCallArgumentsDelta(delta) => if delta.delta is Some
                && state.call_of(delta) < state.calls.len() && state.place(state.call_of(delta))
                == index {
                delta.delta->0
            } else {
                Seq::empty()
            },
            _ => Seq::empty(),
        },
{
    let events = state.told(event).events;
    if events.len() == 1 {
        assert(events =~= seq![events[0]]);
        stream::lemma_told_one(events[0], index);
        stream::lemma_told_one(events[0], 0);
    } else if events.len() == 2 {
        assert(events =~= seq![events[0]] + seq![events[1]]);
        stream::lemma_told_add(seq![events[0]], seq![events[1]], index);
        stream::lemma_told_add(seq![events[0]], seq![events[1]], 0);
        stream::lemma_told_one(events[0], index);
        stream::lemma_told_one(events[0], 0);
        stream::lemma_told_one(events[1], index);
        stream::lemma_told_one(events[1], 0);
        let text = event->OutputTextDelta_0.delta->0;
        assert(Seq::<char>::empty() + text =~= text);
        assert(Seq::<char>::empty() + Seq::<char>::empty() =~= Seq::<char>::empty());
    } else {
        assert(event matches ResponsesEventView::OutputTextDelta(delta) ==> or_empty(delta.delta)
            =~= Seq::empty());
    }
}

/// The text of the answer is all the text that was told, and there is a text
/// where any was told.
pub proof fn law_text_is_what_was_told(model: ModelView, events: Seq<ResponsesEventView>)
    ensures
        after_all(fresh(model), events).text == stream::told_text(
            told_all(fresh(model), events),
            0,
        ),
        after_all(fresh(model), events).text_started <==> after_all(
            fresh(model),
            events,
        ).text.len() > 0,
    decreases events.len(),
{
    if events.len() > 0 {
        let front = events.drop_last();
        law_text_is_what_was_told(model, front);
        let state = after_all(fresh(model), front);
        stream::lemma_told_add(
            told_all(fresh(model), front),
            state.told(events.last()).events,
            0,
        );
        lemma_step_told(state, events.last(), 0);
        assert(state.text + Seq::<char>::empty() =~= state.text);
        if let ResponsesEventView::OutputTextDelta(delta) = events.last() {
            assert(delta.delta matches Some(text) ==> text.len() == 0 ==> text =~= Seq::empty());
        }
    }
}

/// Whether text had begun whenever a call was there, or never began.
pub open spec fn text_comes_first(model: ModelView, events: Seq<ResponsesEventView>) -> bool {
    forall|n: int|
        #![trigger events.take(n)]
        0 <= n <= events.len() && after_all(fresh(model), events.take(n)).calls.len() > 0
            ==> after_all(fresh(model), events.take(n)).text_started == after_all(
            fresh(model),
            events,
        ).text_started
}

/// Where no text begins after a call, the arguments of a call are all the
/// pieces that were told for its place in the answer.
pub proof fn law_arguments_are_assembled(
    model: ModelView,
    events: Seq<ResponsesEventView>,
    k: int,
)
    requires
        text_comes_first(model, events),
        0 <= k < after_all(fresh(model), events).calls.len() < usize::MAX,
    ensures
        after_all(fresh(model), events).calls[k].args == stream::told_call(
            told_all(fresh(model), events),
            after_all(fresh(model), events).place(k),
        ),
{
    assert(events.take(events.len() as int) =~= events);
    lemma_arguments(model, events, events.len() as int, k);
}

proof fn lemma_arguments(model: ModelView, events: Seq<ResponsesEventView>, n: int, k: int)
    requires
        text_comes_first(model, events),
        0 <= n <= events.len(),
        0 <= k < usize::MAX,
        after_all(fresh(model), events.take(n)).calls.len() < usize::MAX,
    ensures
        stream::told_call(
            told_all(fresh(model), events.take(n)),
            after_all(fresh(model), events).place(k),
        ) == if k < after_all(fresh(model), events.take(n)).calls.len() {
            after_all(fresh(model), events.take(n)).calls[k].args
        } else {
            Seq::empty()
        },
    decreases n,
{
    let now = events.take(n);
    if n > 0 {
        let front = events.take(n - 1);
        assert(now.drop_last() =~= front);
        let state = after_all(fresh(model), front);
        let event = now.last();
        let place = after_all(fresh(model), events).place(k);
        assert(state.after(event).calls.len() >= state.calls.len());
        lemma_arguments(model, events, n - 1, k);
        stream::lemma_told_add(told_all(fresh(model), front), state.told(event).events, place);
        lemma_step_told(state, event, place);
        let told = stream::told_call(told_all(fresh(model), front), place);
        assert(told + Seq::<char>::empty() =~= told);
        if let ResponsesEventView::FunctionCallArgumentsDelta(delta) = event {
            let at = state.call_of(delta);
            if delta.delta is Some && at < state.calls.len() {
                assert(state.text_started == after_all(fresh(model), events).text_started);
                assert(0 <= at);
                assert(state.place(at) == place <==> at == k);
            }
        }
    }
}

/// What the end of the answer tells of a text or a call stands in the answer
/// at the place that it names.
pub proof fn law_endings_point_into_the_answer(state: ResponsesView, now: u64, i: int)
    requires
        0 <= i < state.ending(now).len(),
        state.calls.len() < usize::MAX,
    ensures
        match state.ending(now)[i] {
            EventView::TextEnd { content_index, content } => content_index
                < state.content().len() && state.content()[content_index as int] == (
            ContentView::Text { text: content }),
            EventView::ToolCallEnd { content_index, id, name, arguments } => content_index
                < state.content().len() && state.content()[content_index as int] == (
            ContentView::ToolCall { id, name, arguments }),
            EventView::Done { reason, message } => i == state.ending(now).len() - 1
                && message.content == state.content() && reason == message.stop_reason,
            _ => false,
        },
{
    let shift = if state.text_started {
        1int
    } else {
        0int
    };
    if shift <= i < shift + state.calls.len() {
        assert(state.ending(now)[i] == state.call_end(i - shift));
        assert(state.content()[i] == state.call_content()[i - shift]);
    }
}

/// While an answer arrives nothing that is told begins or ends it; its end tells
/// the answer last.
pub proof fn law_answer_is_told_last(
    state: ResponsesView,
    incoming: IncomingView<ResponsesEventView>,
    now: u64,
)
    ensures
        stream::midway(step_of(state, incoming).1.events),
        step_of(state, incoming).1.next != NextView::Close,
        stream::midway(state.ending(now).drop_last()),
        state.ending(now).last() is Done,
{
}

} // verus!
