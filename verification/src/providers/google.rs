//! The Google Generative AI API: what a request holds.

use vstd::prelude::*;

use crate::headers;
use crate::json;
use crate::json::{push_item, set_field, Json, JsonView};
use crate::providers::debug;
use crate::providers::request;
use crate::providers::request::{ProviderRequest, RequestView};
use crate::providers::Provider;
use crate::types::{
    joined_text, text_of, Content, ContentView, Context, ContextView, Message, MessageView, Model,
    ModelView, OptionsView, StreamOptions, Tool, ToolView,
};

verus! {

/// An object with one field.
pub open spec fn only(name: Seq<char>, value: JsonView) -> JsonView {
    JsonView::Object(json::no_fields().insert(name, value))
}

/// The texts among the pieces of a message.
pub open spec fn text_parts(content: Seq<ContentView>) -> Seq<JsonView>
    decreases content.len(),
{
    if content.len() == 0 {
        Seq::empty()
    } else {
        text_parts(content.drop_last()) + match content.last() {
            ContentView::Text { text } => seq![only("text"@, JsonView::String(text))],
            _ => Seq::empty(),
        }
    }
}

/// A call of a tool.
pub open spec fn call_part(name: Seq<char>, arguments: JsonView) -> JsonView {
    only(
        "functionCall"@,
        JsonView::Object(
            json::no_fields().insert("name"@, JsonView::String(name)).insert("args"@, arguments),
        ),
    )
}

/// The texts and the calls among the pieces of an answer.
pub open spec fn answer_parts(content: Seq<ContentView>) -> Seq<JsonView>
    decreases content.len(),
{
    if content.len() == 0 {
        Seq::empty()
    } else {
        answer_parts(content.drop_last()) + match content.last() {
            ContentView::Text { text } => seq![only("text"@, JsonView::String(text))],
            ContentView::ToolCall { name, arguments, .. } => seq![call_part(name, arguments)],
            _ => Seq::empty(),
        }
    }
}

/// A message of a role with its parts.
pub open spec fn role_json(role: Seq<char>, parts: Seq<JsonView>) -> JsonView {
    JsonView::Object(
        json::no_fields().insert("role"@, JsonView::String(role)).insert(
            "parts"@,
            JsonView::Array(parts),
        ),
    )
}

/// What a message becomes. A tool result goes back in the role of the user.
pub open spec fn message_json(message: MessageView) -> JsonView {
    match message {
        MessageView::User { content, .. } => role_json("user"@, text_parts(content)),
        MessageView::Assistant(answer) => role_json("model"@, answer_parts(answer.content)),
        MessageView::ToolResult(result) => {
            let response = json::no_fields().insert(
                "output"@,
                JsonView::String(text_of(result.content)),
            ).insert("is_error"@, JsonView::Bool(result.is_error));
            let function = json::no_fields().insert(
                "name"@,
                JsonView::String(result.tool_name),
            ).insert("response"@, JsonView::Object(response));
            role_json("user"@, seq![only("functionResponse"@, JsonView::Object(function))])
        },
    }
}

/// A tool, as it goes into a request.
pub open spec fn tool_json(tool: ToolView) -> JsonView {
    JsonView::Object(
        json::no_fields().insert("name"@, JsonView::String(tool.name)).insert(
            "description"@,
            JsonView::String(tool.description),
        ).insert("parameters"@, tool.parameters),
    )
}

/// The body of a request.
pub open spec fn body_json(context: ContextView, options: OptionsView) -> JsonView {
    let fields = json::no_fields().insert(
        "contents"@,
        JsonView::Array(context.messages.map_values(|m: MessageView| message_json(m))),
    );
    let fields = json::with_field(
        fields,
        "systemInstruction"@,
        match context.system_prompt {
            Some(prompt) => Some(
                role_json("system"@, seq![only("text"@, JsonView::String(prompt))]),
            ),
            None => None,
        },
    );
    let fields = json::with_field(
        fields,
        "generationConfig"@,
        match options.temperature {
            Some(temperature) => Some(only("temperature"@, temperature)),
            None => None,
        },
    );
    let fields = json::with_field(
        fields,
        "tools"@,
        if context.tools.len() > 0 {
            Some(
                JsonView::Array(
                    seq![
                        only(
                            "functionDeclarations"@,
                            JsonView::Array(
                                context.tools.map_values(|tool: ToolView| tool_json(tool)),
                            ),
                        ),
                    ],
                ),
            )
        } else {
            None
        },
    );
    JsonView::Object(fields)
}

fn with_only(name: &str, value: Json) -> (object: Json)
    ensures
        object@ == only(name@, value@),
{
    let mut fields: Vec<(String, Json)> = Vec::new();
    set_field(&mut fields, name, value);
    Json::Object(fields)
}

fn to_text_parts(content: &Vec<Content>) -> (parts: Vec<Json>)
    ensures
        json::items_view(parts@) == text_parts(content.deep_view()),
{
    let ghost all = content.deep_view();
    let mut parts: Vec<Json> = Vec::new();
    for i in 0..content.len()
        invariant
            all == content.deep_view(),
            json::items_view(parts@) == text_parts(all.take(i as int)),
    {
        assert(all.take(i + 1).drop_last() =~= all.take(i as int));
        assert(all[i as int] == content@[i as int].deep_view());
        let ghost before = json::items_view(parts@);
        match content[i].as_text() {
            Some(text) => {
                push_item(&mut parts, with_only("text", Json::text(text)));
            },
            None => {},
        }
        assert(json::items_view(parts@) =~= text_parts(all.take(i + 1)));
    }
    assert(all.take(all.len() as int) =~= all);
    parts
}

fn to_call_part(name: &str, arguments: &Json) -> (part: Json)
    ensures
        part@ == call_part(name@, arguments@),
{
    let mut fields: Vec<(String, Json)> = Vec::new();
    set_field(&mut fields, "name", Json::text(name));
    set_field(&mut fields, "args", arguments.clone());
    with_only("functionCall", Json::Object(fields))
}

fn to_answer_parts(content: &Vec<Content>) -> (parts: Vec<Json>)
    ensures
        json::items_view(parts@) == answer_parts(content.deep_view()),
{
    let ghost all = content.deep_view();
    let mut parts: Vec<Json> = Vec::new();
    for i in 0..content.len()
        invariant
            all == content.deep_view(),
            json::items_view(parts@) == answer_parts(all.take(i as int)),
    {
        assert(all.take(i + 1).drop_last() =~= all.take(i as int));
        assert(all[i as int] == content@[i as int].deep_view());
        match &content[i] {
            Content::Text { text } => {
                push_item(&mut parts, with_only("text", Json::text(text.as_str())));
            },
            Content::ToolCall { name, arguments, .. } => {
                push_item(&mut parts, to_call_part(name.as_str(), arguments));
            },
            _ => {},
        }
        assert(json::items_view(parts@) =~= answer_parts(all.take(i + 1)));
    }
    assert(all.take(all.len() as int) =~= all);
    parts
}

fn in_role(role: &str, parts: Json) -> (out: Json)
    ensures
        parts@ matches JsonView::Array(items) ==> out@ == role_json(role@, items),
{
    let mut fields: Vec<(String, Json)> = Vec::new();
    set_field(&mut fields, "role", Json::text(role));
    set_field(&mut fields, "parts", parts);
    Json::Object(fields)
}

fn convert_message(message: &Message) -> (out: Json)
    ensures
        out@ == message_json(message.deep_view()),
{
    match message {
        Message::User { content, .. } => in_role("user", Json::Array(to_text_parts(content))),
        Message::Assistant(answer) => in_role(
            "model",
            Json::Array(to_answer_parts(&answer.content)),
        ),
        Message::ToolResult(result) => {
            let mut response: Vec<(String, Json)> = Vec::new();
            set_field(
                &mut response,
                "output",
                Json::text(joined_text(&result.content).as_str()),
            );
            set_field(&mut response, "is_error", Json::Bool(result.is_error));
            let mut function: Vec<(String, Json)> = Vec::new();
            set_field(&mut function, "name", Json::text(result.tool_name.as_str()));
            set_field(&mut function, "response", Json::Object(response));
            in_role("user", json::single(with_only("functionResponse", Json::Object(function))))
        },
    }
}

/// The messages of a conversation, each as it goes into a request.
pub fn convert_messages(messages: &Vec<Message>) -> (out: Vec<Json>)
    ensures
        json::items_view(out@) == messages.deep_view().map_values(
            |m: MessageView| message_json(m),
        ),
{
    let mut out: Vec<Json> = Vec::new();
    for i in 0..messages.len()
        invariant
            json::items_view(out@) =~= messages.deep_view().take(i as int).map_values(
                |m: MessageView| message_json(m),
            ),
    {
        push_item(&mut out, convert_message(&messages[i]));
    }
    assert(messages.deep_view().take(messages@.len() as int) =~= messages.deep_view());
    out
}

fn convert_tools(tools: &Vec<Tool>) -> (out: Vec<Json>)
    ensures
        json::items_view(out@) == tools.deep_view().map_values(|tool: ToolView| tool_json(tool)),
{
    let mut out: Vec<Json> = Vec::new();
    for i in 0..tools.len()
        invariant
            json::items_view(out@) =~= tools.deep_view().take(i as int).map_values(
                |tool: ToolView| tool_json(tool),
            ),
    {
        let tool = &tools[i];
        let mut fields: Vec<(String, Json)> = Vec::new();
        set_field(&mut fields, "name", Json::text(tool.name.as_str()));
        set_field(&mut fields, "description", Json::text(tool.description.as_str()));
        set_field(&mut fields, "parameters", tool.parameters.clone());
        push_item(&mut out, Json::Object(fields));
    }
    assert(tools.deep_view().take(tools@.len() as int) =~= tools.deep_view());
    out
}

/// The body of a request.
pub fn build_body(context: &Context, options: &StreamOptions) -> (body: Json)
    ensures
        body@ == body_json(context.deep_view(), options.deep_view()),
{
    let mut fields: Vec<(String, Json)> = Vec::new();
    set_field(&mut fields, "contents", Json::Array(convert_messages(&context.messages)));
    if let Some(prompt) = &context.system_prompt {
        let part = with_only("text", Json::text(prompt.as_str()));
        set_field(&mut fields, "systemInstruction", in_role("system", json::single(part)));
    }
    if let Some(temperature) = &options.temperature {
        set_field(
            &mut fields,
            "generationConfig",
            with_only("temperature", temperature.clone()),
        );
    }
    if context.tools.len() > 0 {
        let tools = Json::Array(convert_tools(&context.tools));
        set_field(&mut fields, "tools", json::single(with_only("functionDeclarations", tools)));
    }
    Json::Object(fields)
}

/// The Google Generative AI API.
#[derive(Clone, Copy, Debug, PartialEq, Eq)]
pub struct GoogleProvider;

impl GoogleProvider {
    /// The provider.
    pub fn new() -> (provider: Self)
        ensures
            provider.idle_limit() is None,
    {
        GoogleProvider
    }
}

impl Default for GoogleProvider {
    fn default() -> (provider: Self)
        ensures
            provider.idle_limit() is None,
    {
        GoogleProvider::new()
    }
}

/// The headers that every request has.
pub open spec fn own_headers() -> Seq<(Seq<char>, Seq<char>)> {
    seq![("accept"@, "text/event-stream"@), ("content-type"@, "application/json"@)]
}

/// The URL of a request, up to its query.
pub open spec fn url_head(base: Seq<char>, model: Seq<char>) -> Seq<char> {
    base + "/v1beta/models/"@ + model + ":streamGenerateContent"@
}

/// The URL of a request, which holds the key in its query.
pub open spec fn url_of(base: Seq<char>, model: Seq<char>, key: Seq<char>) -> Seq<char> {
    url_head(base, model) + "?alt=sse&key="@ + key
}

impl Provider for GoogleProvider {
    open spec fn label(&self) -> Seq<char> {
        "google"@
    }

    open spec fn variables(&self) -> Seq<Seq<char>> {
        seq!["GOOGLE_API_KEY"@, "GEMINI_API_KEY"@]
    }

    open spec fn idle_limit(&self) -> Option<usize> {
        None
    }

    open spec fn request_view(
        &self,
        model: ModelView,
        context: ContextView,
        options: OptionsView,
        key: Seq<char>,
    ) -> RequestView {
        RequestView {
            url: url_of(request::base_of(options.base_url, model.base_url), model.id, key),
            bearer: None,
            headers: own_headers() + options.headers,
            logged: headers::with_headers(
                headers::with_headers(Seq::empty(), own_headers()),
                options.headers,
            ),
            body: body_json(context, options),
        }
    }

    fn name(&self) -> (name: &'static str) {
        "google"
    }

    fn key_variables(&self) -> (names: Vec<&'static str>) {
        let mut names: Vec<&'static str> = Vec::new();
        names.push("GOOGLE_API_KEY");
        names.push("GEMINI_API_KEY");
        assert(names.deep_view() =~= self.variables());
        names
    }

    fn pool_max_idle_per_host(&self) -> (limit: Option<usize>) {
        None
    }

    fn build_request(
        &self,
        model: &Model,
        context: &Context,
        options: &StreamOptions,
        key: &str,
    ) -> (request: ProviderRequest) {
        let mut url = request::choose_base(&options.base_url, model.base_url.as_str()).to_owned();
        url.append("/v1beta/models/");
        url.append(model.id.as_str());
        url.append(":streamGenerateContent");
        url.append("?alt=sse&key=");
        url.append(key);
        let mut list: Vec<(String, String)> = Vec::new();
        request::add_header(&mut list, "accept", "text/event-stream");
        request::add_header(&mut list, "content-type", "application/json");
        assert(list.deep_view() =~= own_headers());
        let logged = request::logged_headers(&list, &options.headers);
        request::add_headers(&mut list, &options.headers);
        ProviderRequest {
            url,
            bearer: None,
            headers: list,
            logged,
            body: build_body(context, options),
        }
    }
}

/// Whether the query of a request's URL is where the key stands: what comes
/// before it opens no fragment behind a question mark.
pub open spec fn query_is_open(base: Seq<char>, model: Seq<char>) -> bool {
    match crate::text::split_once(url_head(base, model), '?') {
        Some((prefix, rest)) => debug::lacks(rest, '#'),
        None => true,
    }
}

/// The prefix of a URL and the part of its query before the key.
spec fn before_key(base: Seq<char>, model: Seq<char>) -> (Seq<char>, Seq<char>) {
    match crate::text::split_once(url_head(base, model), '?') {
        Some((prefix, rest)) => (prefix, rest + "?alt=sse"@),
        None => (url_head(base, model), "alt=sse"@),
    }
}

/// A URL, part by part.
proof fn lemma_url_parts(base: Seq<char>, model: Seq<char>, key: Seq<char>)
    ensures
        url_of(base, model, key) == before_key(base, model).0 + "?"@ + (before_key(base, model).1
            + "&"@ + ("key"@ + "="@ + key)),
        debug::lacks(before_key(base, model).0, '?'),
        query_is_open(base, model) ==> debug::lacks(before_key(base, model).1, '#'),
{
    let head = url_head(base, model);
    let (prefix, start) = before_key(base, model);
    crate::text::lemma_find(head, '?');
    assert("?alt=sse&key="@ =~= "?alt=sse"@ + "&"@ + "key"@ + "="@) by {
        reveal_strlit("?alt=sse&key=");
        reveal_strlit("?alt=sse");
        reveal_strlit("&");
        reveal_strlit("key");
        reveal_strlit("=");
    }
    assert("?alt=sse"@ =~= "?"@ + "alt=sse"@) by {
        reveal_strlit("?alt=sse");
        reveal_strlit("alt=sse");
        reveal_strlit("?");
    }
    assert(debug::lacks("?alt=sse"@, '#') && debug::lacks("alt=sse"@, '#')) by {
        reveal_strlit("?alt=sse");
        reveal_strlit("alt=sse");
    }
    assert("?"@ =~= seq!['?']) by {
        reveal_strlit("?");
    }
    let tail = "&"@ + ("key"@ + "="@ + key);
    assert("?alt=sse"@ + "&"@ + "key"@ + "="@ + key =~= "?alt=sse"@ + tail);
    assert(url_of(base, model, key) =~= head + ("?alt=sse"@ + tail));
    match crate::text::split_once(head, '?') {
        Some((front, rest)) => {
            assert(head =~= front + "?"@ + rest);
            assert(head + ("?alt=sse"@ + tail) =~= front + "?"@ + (rest + "?alt=sse"@ + tail));
        },
        None => {
            assert(head + ("?alt=sse"@ + tail) =~= head + "?"@ + ("alt=sse"@ + tail));
        },
    }
    assert(start + tail =~= start + "&"@ + ("key"@ + "="@ + key));
}

/// The URL that is shown holds no key.
proof fn lemma_url_is_redacted(base: Seq<char>, model: Seq<char>, key: Seq<char>)
    requires
        query_is_open(base, model),
        debug::lacks(key, '&'),
        debug::lacks(key, '#'),
    ensures
        debug::redacted_url(url_of(base, model, key)) == before_key(base, model).0 + "?"@ + (
        debug::redacted_query(before_key(base, model).1) + "&"@ + ("key"@ + "=<redacted>"@)),
{
    let (prefix, start) = before_key(base, model);
    let pair = "key"@ + "="@ + key;
    lemma_url_parts(base, model, key);
    assert(debug::lacks(pair, '#') && debug::lacks("&"@, '#')) by {
        reveal_strlit("key");
        reveal_strlit("=");
        reveal_strlit("&");
    }
    assert(debug::lacks(start + "&"@ + pair, '#'));
    debug::law_only_the_query_changes(prefix, start + "&"@ + pair, Seq::empty());
    debug::law_query_of_two_parts(start, pair);
    assert(crate::text::lower_text("key"@) =~= "key"@) by {
        reveal_strlit("key");
    }
    debug::law_key_value_is_hidden("key"@, key);
}

/// What is shown of a request does not depend on the key, where the key holds
/// neither an ampersand nor a hash sign and the URL before it opens no fragment
/// behind a question mark.
pub proof fn law_key_is_not_shown(
    provider: GoogleProvider,
    model: ModelView,
    context: ContextView,
    options: OptionsView,
    key: Seq<char>,
    other: Seq<char>,
)
    requires
        query_is_open(request::base_of(options.base_url, model.base_url), model.id),
        debug::lacks(key, '&'),
        debug::lacks(key, '#'),
        debug::lacks(other, '&'),
        debug::lacks(other, '#'),
    ensures
        debug::shown(model, provider.request_view(model, context, options, key)) == debug::shown(
            model,
            provider.request_view(model, context, options, other),
        ),
{
    let base = request::base_of(options.base_url, model.base_url);
    lemma_url_is_redacted(base, model.id, key);
    lemma_url_is_redacted(base, model.id, other);
    debug::law_secrets_are_not_shown(
        model,
        provider.request_view(model, context, options, key),
        provider.request_view(model, context, options, other),
    );
}

} // verus!
