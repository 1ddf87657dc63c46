//! The OpenAI Responses API: what a request holds.

use vstd::prelude::*;

use crate::headers;
use crate::json;
use crate::json::{push_item, set_field, Json, JsonView};
use crate::providers::debug;
use crate::providers::request;
use crate::providers::request::{ProviderRequest, RequestView};
use crate::providers::Provider;
use crate::types::{
    joined_text, text_of, Content, ContentView, Context, ContextView, Message, MessageView, Model,
    ModelView, OptionsView, StreamOptions, ThinkingLevel, Tool, ToolView,
};

verus! {

/// The name of the effort that a level of thinking asks for.
pub open spec fn effort(level: ThinkingLevel) -> Option<Seq<char>> {
    match level {
        ThinkingLevel::Off => None,
        ThinkingLevel::Minimal | ThinkingLevel::Low => Some("low"@),
        ThinkingLevel::Medium => Some("medium"@),
        ThinkingLevel::High | ThinkingLevel::Xhigh => Some("high"@),
    }
}

/// The name of the effort that a level of thinking asks for.
pub fn reasoning_effort(level: ThinkingLevel) -> (name: Option<&'static str>)
    ensures
        name.deep_view() == effort(level),
{
    match level {
        ThinkingLevel::Off => None,
        ThinkingLevel::Minimal | ThinkingLevel::Low => Some("low"),
        ThinkingLevel::Medium => Some("medium"),
        ThinkingLevel::High | ThinkingLevel::Xhigh => Some("high"),
    }
}

/// A message of a role that holds one text.
pub open spec fn message_item(role: Seq<char>, kind: Seq<char>, text: Seq<char>) -> JsonView {
    let block = json::no_fields().insert("type"@, JsonView::String(kind)).insert(
        "text"@,
        JsonView::String(text),
    );
    JsonView::Object(
        json::no_fields().insert("type"@, JsonView::String("message"@)).insert(
            "role"@,
            JsonView::String(role),
        ).insert("content"@, JsonView::Array(seq![JsonView::Object(block)])),
    )
}

/// A call of a tool, given the text of its arguments.
pub open spec fn call_item(id: Seq<char>, name: Seq<char>, arguments: Seq<char>) -> JsonView {
    JsonView::Object(
        json::no_fields().insert("type"@, JsonView::String("function_call"@)).insert(
            "call_id"@,
            JsonView::String(id),
        ).insert("name"@, JsonView::String(name)).insert("arguments"@, JsonView::String(arguments)),
    )
}

/// What a tool gave back.
pub open spec fn output_item(id: Seq<char>, output: Seq<char>) -> JsonView {
    JsonView::Object(
        json::no_fields().insert("type"@, JsonView::String("function_call_output"@)).insert(
            "call_id"@,
            JsonView::String(id),
        ).insert("output"@, JsonView::String(output)),
    )
}

/// The calls among the pieces of an answer, each with its arguments as text.
pub open spec fn call_items(content: Seq<ContentView>) -> Seq<JsonView>
    decreases content.len(),
{
    if content.len() == 0 {
        Seq::empty()
    } else {
        call_items(content.drop_last()) + match content.last() {
            ContentView::ToolCall { id, name, arguments } => seq![
                call_item(id, name, json::compact_text(arguments)),
            ],
            _ => Seq::empty(),
        }
    }
}

/// The items that a message becomes: an answer gives its text, where it has
/// any, and then its calls.
pub open spec fn message_items(message: MessageView) -> Seq<JsonView> {
    match message {
        MessageView::User { content, .. } => seq![
            message_item("user"@, "input_text"@, text_of(content)),
        ],
        MessageView::Assistant(answer) => {
            let text = text_of(answer.content);
            (if text.len() == 0 {
                Seq::empty()
            } else {
                seq![message_item("assistant"@, "output_text"@, text)]
            }) + call_items(answer.content)
        },
        MessageView::ToolResult(result) => seq![
            output_item(result.tool_call_id, text_of(result.content)),
        ],
    }
}

/// The items of a conversation.
pub open spec fn input_items(messages: Seq<MessageView>) -> Seq<JsonView>
    decreases messages.len(),
{
    if messages.len() == 0 {
        Seq::empty()
    } else {
        input_items(messages.drop_last()) + message_items(messages.last())
    }
}

/// A tool, as it goes into a request.
pub open spec fn tool_json(tool: ToolView) -> JsonView {
    JsonView::Object(
        json::no_fields().insert("type"@, JsonView::String("function"@)).insert(
            "name"@,
            JsonView::String(tool.name),
        ).insert("description"@, JsonView::String(tool.description)).insert(
            "parameters"@,
            tool.parameters,
        ),
    )
}

/// What asks for reasoning, where the level allows any.
pub open spec fn reasoning_json(reasoning: Option<ThinkingLevel>) -> Option<JsonView> {
    match reasoning {
        Some(level) => match effort(level) {
            Some(name) => Some(
                JsonView::Object(json::no_fields().insert("effort"@, JsonView::String(name))),
            ),
            None => None,
        },
        None => None,
    }
}

/// The body of a request.
pub open spec fn body_json(model: ModelView, context: ContextView, options: OptionsView) -> JsonView {
    let fields = json::no_fields().insert("model"@, JsonView::String(model.id)).insert(
        "input"@,
        JsonView::Array(input_items(context.messages)),
    ).insert("stream"@, JsonView::Bool(true));
    let fields = json::with_field(
        fields,
        "instructions"@,
        match context.system_prompt {
            Some(prompt) => Some(JsonView::String(prompt)),
            None => None,
        },
    );
    let fields = json::with_field(
        fields,
        "max_output_tokens"@,
        match options.max_tokens {
            Some(limit) => Some(json::integer(limit as nat)),
            None => None,
        },
    );
    let fields = json::with_field(fields, "temperature"@, options.temperature);
    let fields = json::with_field(fields, "reasoning"@, reasoning_json(options.reasoning));
    let fields = json::with_field(
        fields,
        "tools"@,
        if context.tools.len() > 0 {
            Some(JsonView::Array(context.tools.map_values(|tool: ToolView| tool_json(tool))))
        } else {
            None
        },
    );
    JsonView::Object(fields)
}

fn to_message_item(role: &str, kind: &str, text: &str) -> (item: Json)
    ensures
        item@ == message_item(role@, kind@, text@),
{
    let mut block: Vec<(String, Json)> = Vec::new();
    set_field(&mut block, "type", Json::text(kind));
    set_field(&mut block, "text", Json::text(text));
    let mut fields: Vec<(String, Json)> = Vec::new();
    set_field(&mut fields, "type", Json::text("message"));
    set_field(&mut fields, "role", Json::text(role));
    set_field(&mut fields, "content", json::single(Json::Object(block)));
    Json::Object(fields)
}

/// A call of a tool, given the text of its arguments.
pub fn to_call_item(id: &str, name: &str, arguments: &str) -> (item: Json)
    ensures
        item@ == call_item(id@, name@, arguments@),
{
    let mut fields: Vec<(String, Json)> = Vec::new();
    set_field(&mut fields, "type", Json::text("function_call"));
    set_field(&mut fields, "call_id", Json::text(id));
    set_field(&mut fields, "name", Json::text(name));
    set_field(&mut fields, "arguments", Json::text(arguments));
    Json::Object(fields)
}

fn to_output_item(id: &str, output: &str) -> (item: Json)
    ensures
        item@ == output_item(id@, output@),
{
    let mut fields: Vec<(String, Json)> = Vec::new();
    set_field(&mut fields, "type", Json::text("function_call_output"));
    set_field(&mut fields, "call_id", Json::text(id));
    set_field(&mut fields, "output", Json::text(output));
    Json::Object(fields)
}

fn push_calls(items: &mut Vec<Json>, content: &Vec<Content>)
    ensures
        json::items_view(final(items)@) == json::items_view(old(items)@) + call_items(
            content.deep_view(),
        ),
{
    let ghost before = json::items_view(items@);
    let ghost all = content.deep_view();
    assert(before + call_items(all.take(0)) =~= before);
    for i in 0..content.len()
        invariant
            all == content.deep_view(),
            json::items_view(items@) == before + call_items(all.take(i as int)),
    {
        assert(all.take(i + 1).drop_last() =~= all.take(i as int));
        assert(all[i as int] == content@[i as int].deep_view());
        match &content[i] {
            Content::ToolCall { id, name, arguments } => {
                let text = arguments.to_compact();
                let item = to_call_item(id.as_str(), name.as_str(), text.as_str());
                let ghost view = item@;
                push_item(items, item);
                assert((before + call_items(all.take(i as int))).push(view) =~= before + (
                call_items(all.take(i as int)) + seq![view]));
            },
            _ => {
                assert(call_items(all.take(i as int)) + Seq::<JsonView>::empty() =~= call_items(
                    all.take(i as int),
                ));
            },
        }
    }
    assert(all.take(all.len() as int) =~= all);
}

fn push_message(items: &mut Vec<Json>, message: &Message)
    ensures
        json::items_view(final(items)@) == json::items_view(old(items)@) + message_items(
            message.deep_view(),
        ),
{
    let ghost before = json::items_view(items@);
    match message {
        Message::User { content, .. } => {
            let item = to_message_item("user", "input_text", joined_text(content).as_str());
            assert(before.push(item@) =~= before + seq![item@]);
            push_item(items, item);
        },
        Message::Assistant(answer) => {
            let text = joined_text(&answer.content);
            if !text.as_str().is_empty() {
                let item = to_message_item("assistant", "output_text", text.as_str());
                assert(before.push(item@) =~= before + seq![item@]);
                push_item(items, item);
            } else {
                assert(before =~= before + Seq::<JsonView>::empty());
            }
            push_calls(items, &answer.content);
            assert(json::items_view(items@) =~= before + message_items(message.deep_view()));
        },
        Message::ToolResult(result) => {
            let text = joined_text(&result.content);
            let item = to_output_item(result.tool_call_id.as_str(), text.as_str());
            assert(before.push(item@) =~= before + seq![item@]);
            push_item(items, item);
        },
    }
}

/// The items of a conversation.
pub fn convert_input(messages: &Vec<Message>) -> (items: Vec<Json>)
    ensures
        json::items_view(items@) == input_items(messages.deep_view()),
{
    let ghost all = messages.deep_view();
    let mut items: Vec<Json> = Vec::new();
    for i in 0..messages.len()
        invariant
            all == messages.deep_view(),
            json::items_view(items@) == input_items(all.take(i as int)),
    {
        assert(all.take(i + 1).drop_last() =~= all.take(i as int));
        push_message(&mut items, &messages[i]);
    }
    assert(all.take(all.len() as int) =~= all);
    items
}

fn convert_tools(tools: &Vec<Tool>) -> (out: Vec<Json>)
    ensures
        json::items_view(out@) == tools.deep_view().map_values(|tool: ToolView| tool_json(tool)),
{
    let mut out: Vec<Json> = Vec::new();
    for i in 0..tools.len()
        invariant
            json::items_view(out@) =~= tools.deep_view().take(i as int).map_values(
                |tool: ToolView| tool_json(tool),
            ),
    {
        let tool = &tools[i];
        let mut fields: Vec<(String, Json)> = Vec::new();
        set_field(&mut fields, "type", Json::text("function"));
        set_field(&mut fields, "name", Json::text(tool.name.as_str()));
        set_field(&mut fields, "description", Json::text(tool.description.as_str()));
        set_field(&mut fields, "parameters", tool.parameters.clone());
        push_item(&mut out, Json::Object(fields));
    }
    assert(tools.deep_view().take(tools@.len() as int) =~= tools.deep_view());
    out
}

/// The body of a request.
pub fn build_body(model: &Model, context: &Context, options: &StreamOptions) -> (body: Json)
    ensures
        body@ == body_json(model.deep_view(), context.deep_view(), options.deep_view()),
{
    let mut fields: Vec<(String, Json)> = Vec::new();
    set_field(&mut fields, "model", Json::text(model.id.as_str()));
    set_field(&mut fields, "input", Json::Array(convert_input(&context.messages)));
    set_field(&mut fields, "stream", Json::Bool(true));
    if let Some(prompt) = &context.system_prompt {
        set_field(&mut fields, "instructions", Json::text(prompt.as_str()));
    }
    if let Some(limit) = options.max_tokens {
        set_field(&mut fields, "max_output_tokens", Json::Integer(limit));
    }
    json::set_optional(&mut fields, "temperature", options.temperature.clone());
    if let Some(level) = options.reasoning {
        if let Some(name) = reasoning_effort(level) {
            let mut reasoning: Vec<(String, Json)> = Vec::new();
            set_field(&mut reasoning, "effort", Json::text(name));
            set_field(&mut fields, "reasoning", Json::Object(reasoning));
        }
    }
    if context.tools.len() > 0 {
        set_field(&mut fields, "tools", Json::Array(convert_tools(&context.tools)));
    }
    Json::Object(fields)
}

/// The OpenAI Responses API.
#[derive(Clone, Copy, Debug, PartialEq, Eq)]
pub struct OpenAiResponsesProvider;

impl OpenAiResponsesProvider {
    /// The provider.
    pub fn new() -> (provider: Self)
        ensures
            provider.idle_limit() is None,
    {
        OpenAiResponsesProvider
    }
}

impl Default for OpenAiResponsesProvider {
    fn default() -> (provider: Self)
        ensures
            provider.idle_limit() is None,
    {
        OpenAiResponsesProvider::new()
    }
}

/// The headers that every request has besides the one with the key.
pub open spec fn own_headers() -> Seq<(Seq<char>, Seq<char>)> {
    seq![("accept"@, "text/event-stream"@), ("content-type"@, "application/json"@)]
}

impl Provider for OpenAiResponsesProvider {
    open spec fn label(&self) -> Seq<char> {
        "openai"@
    }

    open spec fn variables(&self) -> Seq<Seq<char>> {
        seq!["OPENAI_API_KEY"@]
    }

    open spec fn idle_limit(&self) -> Option<usize> {
        None
    }

    open spec fn request_view(
        &self,
        model: ModelView,
        context: ContextView,
        options: OptionsView,
        key: Seq<char>,
    ) -> RequestView {
        RequestView {
            url: request::base_of(options.base_url, model.base_url) + "/responses"@,
            bearer: Some(key),
            headers: own_headers() + options.headers,
            logged: headers::with_headers(
                headers::with_headers(
                    Seq::empty(),
                    seq![("authorization"@, "Bearer "@ + key)] + own_headers(),
                ),
                options.headers,
            ),
            body: body_json(model, context, options),
        }
    }

    fn name(&self) -> (name: &'static str) {
        "openai"
    }

    fn key_variables(&self) -> (names: Vec<&'static str>) {
        let mut names: Vec<&'static str> = Vec::new();
        names.push("OPENAI_API_KEY");
        assert(names.deep_view() =~= self.variables());
        names
    }

    fn pool_max_idle_per_host(&self) -> (limit: Option<usize>) {
        None
    }

    fn build_request(
        &self,
        model: &Model,
        context: &Context,
        options: &StreamOptions,
        key: &str,
    ) -> (request: ProviderRequest) {
        let url = request::choose_base(&options.base_url, model.base_url.as_str()).to_owned().concat(
            "/responses",
        );
        let mut shown: Vec<(String, String)> = Vec::new();
        let bearer = "Bearer ".to_owned().concat(key);
        request::add_header(&mut shown, "authorization", bearer.as_str());
        request::add_header(&mut shown, "accept", "text/event-stream");
        request::add_header(&mut shown, "content-type", "application/json");
        assert(shown.deep_view() =~= seq![("authorization"@, "Bearer "@ + key@)] + own_headers());
        let mut list: Vec<(String, String)> = Vec::new();
        request::add_header(&mut list, "accept", "text/event-stream");
        request::add_header(&mut list, "content-type", "application/json");
        assert(list.deep_view() =~= own_headers());
        request::add_headers(&mut list, &options.headers);
        ProviderRequest {
            url,
            bearer: Some(key.to_owned()),
            headers: list,
            logged: request::logged_headers(&shown, &options.headers),
            body: build_body(model, context, options),
        }
    }
}

/// What is shown of a request does not depend on the key.
pub proof fn law_key_is_not_shown(
    provider: OpenAiResponsesProvider,
    model: ModelView,
    context: ContextView,
    options: OptionsView,
    key: Seq<char>,
    other: Seq<char>,
)
    ensures
        debug::shown(model, provider.request_view(model, context, options, key)) == debug::shown(
            model,
            provider.request_view(model, context, options, other),
        ),
{
    let start: Seq<(Seq<char>, Seq<char>)> = Seq::empty();
    let list = seq![("authorization"@, "Bearer "@ + key)] + own_headers();
    let other_list = seq![("authorization"@, "Bearer "@ + other)] + own_headers();
    reveal_strlit("authorization");
    assert(crate::text::lower_text("authorization"@) =~= "authorization"@);
    assert(debug::alike(list, other_list));
    debug::lemma_alike_with_headers(start, start, list, other_list);
    debug::lemma_alike_with_headers(
        headers::with_headers(start, list),
        headers::with_headers(start, other_list),
        options.headers,
        options.headers,
    );
    debug::law_secrets_are_not_shown(
        model,
        provider.request_view(model, context, options, key),
        provider.request_view(model, context, options, other),
    );
}

} // verus!
