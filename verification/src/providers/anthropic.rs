//! The Anthropic Messages API: what a request holds.

use vstd::prelude::*;

use crate::headers;
use crate::json;
use crate::json::{field_index, push_item, set_field, Json, JsonView};
use crate::providers::debug;
use crate::providers::request;
use crate::providers::request::{ProviderRequest, RequestView};
use crate::providers::Provider;
use crate::types::{
    CacheRetention, Content, ContentView, Context, ContextView, Message, MessageView, Model,
    ModelView, OptionsView, StreamOptions, ThinkingLevel, Tool, ToolView,
};

verus! {

/// A block of text.
pub open spec fn text_block(text: Seq<char>) -> JsonView {
    JsonView::Object(
        json::no_fields().insert("type"@, JsonView::String("text"@)).insert(
            "text"@,
            JsonView::String(text),
        ),
    )
}

/// A block that holds an image.
pub open spec fn image_block(data: Seq<char>, mime_type: Seq<char>) -> JsonView {
    let source = json::no_fields().insert("type"@, JsonView::String("base64"@)).insert(
        "media_type"@,
        JsonView::String(mime_type),
    ).insert("data"@, JsonView::String(data));
    JsonView::Object(
        json::no_fields().insert("type"@, JsonView::String("image"@)).insert(
            "source"@,
            JsonView::Object(source),
        ),
    )
}

/// The block that a piece of a message becomes.
pub open spec fn block_json(content: ContentView) -> JsonView {
    match content {
        ContentView::Text { text } => text_block(text),
        ContentView::Thinking { thinking, thinking_signature } => {
            let fields = json::no_fields().insert("type"@, JsonView::String("thinking"@)).insert(
                "thinking"@,
                JsonView::String(thinking),
            );
            JsonView::Object(
                match thinking_signature {
                    Some(signature) => fields.insert("signature"@, JsonView::String(signature)),
                    None => fields,
                },
            )
        },
        ContentView::Image { data, mime_type } => image_block(data, mime_type),
        ContentView::ToolCall { id, name, arguments } => JsonView::Object(
            json::no_fields().insert("type"@, JsonView::String("tool_use"@)).insert(
                "id"@,
                JsonView::String(id),
            ).insert("name"@, JsonView::String(name)).insert("input"@, arguments),
        ),
    }
}

/// The block that a piece of a tool result becomes: text and images as they
/// are, an empty text for anything else.
pub open spec fn result_block_json(content: ContentView) -> JsonView {
    match content {
        ContentView::Text { text } => text_block(text),
        ContentView::Image { data, mime_type } => image_block(data, mime_type),
        _ => text_block(""@),
    }
}

/// A message of a role with its content.
pub open spec fn role_json(role: Seq<char>, content: Seq<JsonView>) -> JsonView {
    JsonView::Object(
        json::no_fields().insert("role"@, JsonView::String(role)).insert(
            "content"@,
            JsonView::Array(content),
        ),
    )
}

/// What a message becomes. A tool result goes back in the role of the user.
pub open spec fn message_json(message: MessageView) -> JsonView {
    match message {
        MessageView::User { content, .. } => role_json(
            "user"@,
            content.map_values(|c: ContentView| block_json(c)),
        ),
        MessageView::Assistant(message) => role_json(
            "assistant"@,
            message.content.map_values(|c: ContentView| block_json(c)),
        ),
        MessageView::ToolResult(result) => {
            let block = json::no_fields().insert(
                "type"@,
                JsonView::String("tool_result"@),
            ).insert("tool_use_id"@, JsonView::String(result.tool_call_id)).insert(
                "content"@,
                JsonView::Array(result.content.map_values(|c: ContentView| result_block_json(c))),
            ).insert("is_error"@, JsonView::Bool(result.is_error));
            role_json("user"@, seq![JsonView::Object(block)])
        },
    }
}

/// The messages of a conversation, each as it goes into a request.
pub open spec fn messages_json(messages: Seq<MessageView>) -> Seq<JsonView> {
    messages.map_values(|m: MessageView| message_json(m))
}

fn text_to_block(text: &str) -> (block: Json)
    ensures
        block@ == text_block(text@),
{
    let mut fields: Vec<(String, Json)> = Vec::new();
    set_field(&mut fields, "type", Json::text("text"));
    set_field(&mut fields, "text", Json::text(text));
    Json::Object(fields)
}

fn image_to_block(data: &str, mime_type: &str) -> (block: Json)
    ensures
        block@ == image_block(data@, mime_type@),
{
    let mut source: Vec<(String, Json)> = Vec::new();
    set_field(&mut source, "type", Json::text("base64"));
    set_field(&mut source, "media_type", Json::text(mime_type));
    set_field(&mut source, "data", Json::text(data));
    let mut fields: Vec<(String, Json)> = Vec::new();
    set_field(&mut fields, "type", Json::text("image"));
    set_field(&mut fields, "source", Json::Object(source));
    Json::Object(fields)
}

/// The block that a piece of a message becomes.
pub fn content_to_block(c: &Content) -> (block: Json)
    ensures
        block@ == block_json(c.deep_view()),
{
    match c {
        Content::Text { text } => text_to_block(text.as_str()),
        Content::Thinking { thinking, thinking_signature } => {
            let mut fields: Vec<(String, Json)> = Vec::new();
            set_field(&mut fields, "type", Json::text("thinking"));
            set_field(&mut fields, "thinking", Json::text(thinking.as_str()));
            if let Some(signature) = thinking_signature {
                set_field(&mut fields, "signature", Json::text(signature.as_str()));
            }
            Json::Object(fields)
        },
        Content::Image { data, mime_type } => image_to_block(data.as_str(), mime_type.as_str()),
        Content::ToolCall { id, name, arguments } => {
            let mut fields: Vec<(String, Json)> = Vec::new();
            set_field(&mut fields, "type", Json::text("tool_use"));
            set_field(&mut fields, "id", Json::text(id.as_str()));
            set_field(&mut fields, "name", Json::text(name.as_str()));
            set_field(&mut fields, "input", arguments.clone());
            Json::Object(fields)
        },
    }
}

fn result_to_block(c: &Content) -> (block: Json)
    ensures
        block@ == result_block_json(c.deep_view()),
{
    match c {
        Content::Text { text } => text_to_block(text.as_str()),
        Content::Image { data, mime_type } => image_to_block(data.as_str(), mime_type.as_str()),
        _ => text_to_block(""),
    }
}

fn blocks(content: &Vec<Content>) -> (out: Vec<Json>)
    ensures
        json::items_view(out@) == content.deep_view().map_values(|c: ContentView| block_json(c)),
{
    let mut out: Vec<Json> = Vec::new();
    for i in 0..content.len()
        invariant
            json::items_view(out@) =~= content.deep_view().take(i as int).map_values(
                |c: ContentView| block_json(c),
            ),
    {
        let block = content_to_block(&content[i]);
        push_item(&mut out, block);
    }
    assert(content.deep_view().take(content@.len() as int) =~= content.deep_view());
    out
}

fn result_blocks(content: &Vec<Content>) -> (out: Vec<Json>)
    ensures
        json::items_view(out@) == content.deep_view().map_values(
            |c: ContentView| result_block_json(c),
        ),
{
    let mut out: Vec<Json> = Vec::new();
    for i in 0..content.len()
        invariant
            json::items_view(out@) =~= content.deep_view().take(i as int).map_values(
                |c: ContentView| result_block_json(c),
            ),
    {
        let block = result_to_block(&content[i]);
        push_item(&mut out, block);
    }
    assert(content.deep_view().take(content@.len() as int) =~= content.deep_view());
    out
}

fn in_role(role: &str, content: Json) -> (out: Json)
    ensures
        content@ matches JsonView::Array(blocks) ==> out@ == role_json(role@, blocks),
{
    let mut fields: Vec<(String, Json)> = Vec::new();
    set_field(&mut fields, "role", Json::text(role));
    set_field(&mut fields, "content", content);
    Json::Object(fields)
}

fn convert_message(message: &Message) -> (out: Json)
    ensures
        out@ == message_json(message.deep_view()),
{
    match message {
        Message::User { content, .. } => in_role("user", Json::Array(blocks(content))),
        Message::Assistant(message) => in_role("assistant", Json::Array(blocks(&message.content))),
        Message::ToolResult(result) => {
            let mut block: Vec<(String, Json)> = Vec::new();
            set_field(&mut block, "type", Json::text("tool_result"));
            set_field(&mut block, "tool_use_id", Json::text(result.tool_call_id.as_str()));
            set_field(&mut block, "content", Json::Array(result_blocks(&result.content)));
            set_field(&mut block, "is_error", Json::Bool(result.is_error));
            in_role("user", json::single(Json::Object(block)))
        },
    }
}

/// The messages of a conversation, each as it goes into a request.
pub fn convert_messages(messages: &Vec<Message>) -> (out: Vec<Json>)
    ensures
        json::items_view(out@) == messages_json(messages.deep_view()),
{
    let mut out: Vec<Json> = Vec::new();
    for i in 0..messages.len()
        invariant
            json::items_view(out@) =~= messages_json(messages.deep_view().take(i as int)),
    {
        let message = convert_message(&messages[i]);
        push_item(&mut out, message);
    }
    assert(messages.deep_view().take(messages@.len() as int) =~= messages.deep_view());
    out
}

/// How many tokens a level of thinking may take.
pub open spec fn budget(level: ThinkingLevel) -> Option<u32> {
    match level {
        ThinkingLevel::Off => None,
        ThinkingLevel::Minimal => Some(1024),
        ThinkingLevel::Low => Some(2048),
        ThinkingLevel::Medium => Some(8192),
        ThinkingLevel::High => Some(16384),
        ThinkingLevel::Xhigh => Some(24576),
    }
}

/// How many tokens a level of thinking may take.
pub fn thinking_budget(level: ThinkingLevel) -> (tokens: Option<u32>)
    ensures
        tokens == budget(level),
{
    match level {
        ThinkingLevel::Off => None,
        ThinkingLevel::Minimal => Some(1024),
        ThinkingLevel::Low => Some(2048),
        ThinkingLevel::Medium => Some(8192),
        ThinkingLevel::High => Some(16384),
        ThinkingLevel::Xhigh => Some(24576),
    }
}

/// The mark that asks for a piece of the prompt to be cached.
pub open spec fn cache_mark(retention: CacheRetention) -> Option<JsonView> {
    let short = json::no_fields().insert("type"@, JsonView::String("ephemeral"@));
    match retention {
        CacheRetention::Off => None,
        CacheRetention::Short => Some(JsonView::Object(short)),
        CacheRetention::Long => Some(
            JsonView::Object(short.insert("ttl"@, JsonView::String("1h"@))),
        ),
    }
}

/// The mark that asks for a piece of the prompt to be cached.
pub fn cache_control_json(retention: CacheRetention) -> (mark: Option<Json>)
    ensures
        mark.deep_view() == cache_mark(retention),
{
    let mut fields: Vec<(String, Json)> = Vec::new();
    set_field(&mut fields, "type", Json::text("ephemeral"));
    match retention {
        CacheRetention::Off => None,
        CacheRetention::Short => Some(Json::Object(fields)),
        CacheRetention::Long => {
            set_field(&mut fields, "ttl", Json::text("1h"));
            Some(Json::Object(fields))
        },
    }
}

/// Whether a field of an object is a given text.
pub open spec fn has_text(object: JsonView, name: Seq<char>, text: Seq<char>) -> bool {
    object is Object && object->Object_0.contains_pair(name, JsonView::String(text))
}

/// Where the last object is that has a given text in one of its fields.
pub open spec fn last_with(items: Seq<JsonView>, name: Seq<char>, text: Seq<char>) -> Option<int>
    decreases items.len(),
{
    if items.len() == 0 {
        None
    } else if has_text(items.last(), name, text) {
        Some(items.len() - 1)
    } else {
        last_with(items.drop_last(), name, text)
    }
}

/// Blocks with the mark on the last one that is text.
pub open spec fn marked_blocks(blocks: Seq<JsonView>, mark: JsonView) -> Seq<JsonView> {
    match last_with(blocks, "type"@, "text"@) {
        Some(k) => blocks.update(
            k,
            JsonView::Object(blocks[k]->Object_0.insert("cache_control"@, mark)),
        ),
        None => blocks,
    }
}

/// A message with the mark on the last of its blocks that is text.
pub open spec fn marked_message(message: JsonView, mark: JsonView) -> JsonView {
    match message {
        JsonView::Object(fields) => if fields.contains_key("content"@)
            && fields["content"@] is Array {
            JsonView::Object(
                fields.insert(
                    "content"@,
                    JsonView::Array(marked_blocks(fields["content"@]->Array_0, mark)),
                ),
            )
        } else {
            message
        },
        _ => message,
    }
}

/// Messages with the mark on the last text of the last message of the user.
pub open spec fn marked_messages(messages: Seq<JsonView>, mark: JsonView) -> Seq<JsonView> {
    match last_with(messages, "role"@, "user"@) {
        Some(i) => messages.update(i, marked_message(messages[i], mark)),
        None => messages,
    }
}

proof fn lemma_last_with(items: Seq<JsonView>, name: Seq<char>, text: Seq<char>)
    ensures
        match last_with(items, name, text) {
            Some(i) => 0 <= i < items.len() && has_text(items[i], name, text) && (forall|j: int|
                i < j < items.len() ==> !has_text(#[trigger] items[j], name, text)),
            None => forall|j: int|
                0 <= j < items.len() ==> !has_text(#[trigger] items[j], name, text),
        },
    decreases items.len(),
{
    if items.len() > 0 {
        lemma_last_with(items.drop_last(), name, text);
        assert(forall|j: int|
            0 <= j < items.len() - 1 ==> #[trigger] items[j] == items.drop_last()[j]);
    }
}

fn field_is(item: &Json, name: &str, text: &str) -> (yes: bool)
    ensures
        yes == has_text(item@, name@, text@),
{
    match item.get(name) {
        Some(Json::String(field)) => crate::text::same(field.as_str(), text),
        _ => false,
    }
}

fn find_last(items: &Vec<Json>, name: &str, text: &str) -> (at: Option<usize>)
    ensures
        match at {
            Some(at) => last_with(json::items_view(items@), name@, text@) == Some(at as int),
            None => last_with(json::items_view(items@), name@, text@) is None,
        },
{
    let ghost all = json::items_view(items@);
    proof {
        json::lemma_items_view(items@);
        lemma_last_with(all, name@, text@);
    }
    let mut i: usize = items.len();
    while i > 0
        invariant
            i <= items@.len(),
            all == json::items_view(items@),
            all.len() == items@.len(),
            forall|j: int| 0 <= j < items@.len() ==> (#[trigger] all[j]) == items@[j]@,
            forall|j: int| i <= j < items@.len() ==> !has_text(#[trigger] all[j], name@, text@),
            match last_with(all, name@, text@) {
                Some(k) => 0 <= k < all.len() && has_text(all[k], name@, text@) && (forall|j: int|
                    k < j < all.len() ==> !has_text(#[trigger] all[j], name@, text@)),
                None => forall|j: int|
                    0 <= j < all.len() ==> !has_text(#[trigger] all[j], name@, text@),
            },
        decreases i,
    {
        i = i - 1;
        if field_is(&items[i], name, text) {
            assert(has_text(all[i as int], name@, text@));
            return Some(i);
        }
        assert(!has_text(all[i as int], name@, text@));
    }
    None
}

proof fn lemma_items_update(items: Seq<Json>, i: int, item: Json)
    requires
        0 <= i < items.len(),
    ensures
        json::items_view(items.update(i, item)) == json::items_view(items).update(i, item@),
{
    json::lemma_items_view(items);
    json::lemma_items_view(items.update(i, item));
    assert(json::items_view(items.update(i, item)) =~= json::items_view(items).update(i, item@));
}

fn mark_blocks(blocks: &mut Vec<Json>, mark: &Json)
    ensures
        json::items_view(final(blocks)@) == marked_blocks(json::items_view(old(blocks)@), mark@),
{
    match find_last(blocks, "type", "text") {
        Some(k) => {
            let ghost before = blocks@;
            proof {
                json::lemma_items_view(before);
                lemma_last_with(json::items_view(before), "type"@, "text"@);
            }
            let mut block = Json::Null;
            std::mem::swap(&mut block, &mut blocks[k]);
            let marked = match block {
                Json::Object(fields) => {
                    let mut fields = fields;
                    set_field(&mut fields, "cache_control", mark.clone());
                    Json::Object(fields)
                },
                other => other,
            };
            blocks[k] = marked;
            proof {
                lemma_items_update(before, k as int, marked);
                assert(blocks@ =~= before.update(k as int, marked));
            }
        },
        None => {},
    }
}

fn mark_message(message: Json, mark: &Json) -> (out: Json)
    ensures
        out@ == marked_message(message@, mark@),
{
    match message {
        Json::Object(fields) => {
            let mut fields = fields;
            if let Some(at) = field_index(&fields, "content") {
                let ghost before = fields@;
                let mut content = Json::Null;
                std::mem::swap(&mut content, &mut fields[at].1);
                let content = match content {
                    Json::Array(items) => {
                        let mut items = items;
                        mark_blocks(&mut items, mark);
                        Json::Array(items)
                    },
                    other => other,
                };
                let ghost after = content@;
                fields[at].1 = content;
                proof {
                    assert(fields@ =~= before.update(at as int, fields@[at as int]));
                    json::lemma_fields_update(before, at as int, fields@[at as int]);
                    assert(json::fields_view(fields@) =~= json::fields_view(before).insert(
                        "content"@,
                        after,
                    ));
                    let was = json::fields_view(before)["content"@];
                    if !(was is Array) {
                        assert(after == was);
                        assert(json::fields_view(fields@) =~= json::fields_view(before));
                    }
                }
            }
            Json::Object(fields)
        },
        other => other,
    }
}

fn mark_messages(messages: &mut Vec<Json>, mark: &Json)
    ensures
        json::items_view(final(messages)@) == marked_messages(
            json::items_view(old(messages)@),
            mark@,
        ),
{
    match find_last(messages, "role", "user") {
        Some(i) => {
            let ghost before = messages@;
            proof {
                json::lemma_items_view(before);
                lemma_last_with(json::items_view(before), "role"@, "user"@);
            }
            let mut message = Json::Null;
            std::mem::swap(&mut message, &mut messages[i]);
            let marked = mark_message(message, mark);
            messages[i] = marked;
            proof {
                lemma_items_update(before, i as int, marked);
                assert(messages@ =~= before.update(i as int, marked));
            }
        },
        None => {},
    }
}

/// Whether a message goes out in the role of the user.
pub open spec fn from_user(message: MessageView) -> bool {
    !(message is Assistant)
}

proof fn lemma_roles(message: MessageView)
    ensures
        has_text(message_json(message), "role"@, "user"@) == from_user(message),
        message_json(message) is Object,
        message_json(message)->Object_0.contains_key("content"@),
        message_json(message)->Object_0["content"@] is Array,
{
    reveal_strlit("role");
    reveal_strlit("content");
    reveal_strlit("user");
    reveal_strlit("assistant");
    assert("role"@.len() != "content"@.len());
    assert("user"@.len() != "assistant"@.len());
}

proof fn lemma_block_type(content: ContentView)
    ensures
        has_text(block_json(content), "type"@, "text"@) == (content is Text),
{
    reveal_strlit("type");
    reveal_strlit("text");
    reveal_strlit("thinking");
    reveal_strlit("image");
    reveal_strlit("tool_use");
    reveal_strlit("source");
    reveal_strlit("signature");
    reveal_strlit("id");
    reveal_strlit("name");
    reveal_strlit("input");
    assert("text"@.len() != "thinking"@.len());
    assert("text"@.len() != "image"@.len());
    assert("text"@.len() != "tool_use"@.len());
    assert("type"@[0] != "text"@[0] || "type"@[1] != "text"@[1]);
    assert("type"@.len() != "thinking"@.len());
    assert("type"@.len() != "source"@.len());
    assert("type"@.len() != "signature"@.len());
    assert("type"@.len() != "id"@.len());
    assert("type"@[0] != "name"@[0]);
    assert("type"@.len() != "input"@.len());
}

proof fn lemma_last_is(items: Seq<JsonView>, name: Seq<char>, text: Seq<char>, i: int)
    requires
        0 <= i < items.len(),
        has_text(items[i], name, text),
        forall|j: int| i < j < items.len() ==> !has_text(#[trigger] items[j], name, text),
    ensures
        last_with(items, name, text) == Some(i),
{
    lemma_last_with(items, name, text);
}

proof fn lemma_message_content(message: MessageView)
    requires
        message is User,
    ensures
        message_json(message)->Object_0["content"@]->Array_0
            == message->User_content.map_values(|c: ContentView| block_json(c)),
{
}

proof fn lemma_content_set(role: Seq<char>, content: Seq<JsonView>, other: Seq<JsonView>)
    ensures
        JsonView::Object(
            role_json(role, content)->Object_0.insert("content"@, JsonView::Array(other)),
        ) == role_json(role, other),
{
    let fields = json::no_fields().insert("role"@, JsonView::String(role));
    assert(fields.insert("content"@, JsonView::Array(content)).insert(
        "content"@,
        JsonView::Array(other),
    ) =~= fields.insert("content"@, JsonView::Array(other)));
}

/// The mark goes on the last text of the last message that goes out in the role
/// of the user, and nothing else changes.
pub proof fn law_last_user_text_is_marked(
    messages: Seq<MessageView>,
    mark: JsonView,
    i: int,
    k: int,
)
    requires
        0 <= i < messages.len(),
        messages[i] is User,
        forall|j: int| i < j < messages.len() ==> !from_user(#[trigger] messages[j]),
        0 <= k < messages[i]->User_content.len(),
        messages[i]->User_content[k] is Text,
        forall|j: int|
            k < j < messages[i]->User_content.len() ==> !(
            #[trigger] messages[i]->User_content[j] is Text),
    ensures
        marked_messages(messages_json(messages), mark) == messages_json(messages).update(
            i,
            role_json(
                "user"@,
                messages[i]->User_content.map_values(|c: ContentView| block_json(c)).update(
                    k,
                    JsonView::Object(
                        block_json(messages[i]->User_content[k])->Object_0.insert(
                            "cache_control"@,
                            mark,
                        ),
                    ),
                ),
            ),
        ),
{
    let plain = messages_json(messages);
    let content = messages[i]->User_content;
    let blocks = content.map_values(|c: ContentView| block_json(c));
    lemma_roles(messages[i]);
    assert forall|j: int| i < j < plain.len() implies !has_text(
        #[trigger] plain[j],
        "role"@,
        "user"@,
    ) by {
        lemma_roles(messages[j]);
    }
    lemma_last_is(plain, "role"@, "user"@, i);
    lemma_message_content(messages[i]);
    lemma_block_type(content[k]);
    assert forall|j: int| k < j < blocks.len() implies !has_text(
        #[trigger] blocks[j],
        "type"@,
        "text"@,
    ) by {
        lemma_block_type(content[j]);
    }
    lemma_last_is(blocks, "type"@, "text"@, k);
    lemma_content_set("user"@, blocks, marked_blocks(blocks, mark));
}

/// Where the last message that goes out in the role of the user holds no text
/// of the user, no message is marked.
pub proof fn law_no_user_text_no_mark(messages: Seq<MessageView>, mark: JsonView)
    requires
        forall|i: int|
            0 <= i < messages.len() && (forall|j: int|
                i < j < messages.len() ==> !from_user(#[trigger] messages[j])) ==> (
            #[trigger] messages[i] matches MessageView::User { content, .. } ==> forall|k: int|
                0 <= k < content.len() ==> !(#[trigger] content[k] is Text)),
    ensures
        marked_messages(messages_json(messages), mark) == messages_json(messages),
{
    let plain = messages_json(messages);
    lemma_last_with(plain, "role"@, "user"@);
    if let Some(i) = last_with(plain, "role"@, "user"@) {
        assert forall|j: int| i < j < messages.len() implies !from_user(#[trigger] messages[j]) by {
            lemma_roles(messages[j]);
            assert(!has_text(plain[j], "role"@, "user"@));
        }
        lemma_roles(messages[i]);
        let blocks = plain[i]->Object_0["content"@]->Array_0;
        lemma_last_with(blocks, "type"@, "text"@);
        match messages[i] {
            MessageView::User { content, .. } => {
                lemma_message_content(messages[i]);
                assert forall|k: int| 0 <= k < blocks.len() implies !has_text(
                    #[trigger] blocks[k],
                    "type"@,
                    "text"@,
                ) by {
                    lemma_block_type(content[k]);
                }
            },
            MessageView::Assistant(_) => {},
            MessageView::ToolResult(result) => {
                reveal_strlit("type");
                reveal_strlit("tool_use_id");
                reveal_strlit("content");
                reveal_strlit("is_error");
                reveal_strlit("tool_result");
                reveal_strlit("text");
                assert("type"@.len() != "tool_use_id"@.len());
                assert("type"@.len() != "content"@.len());
                assert("type"@.len() != "is_error"@.len());
                assert("tool_result"@.len() != "text"@.len());
                assert(blocks.len() == 1);
                assert(!has_text(blocks[0], "type"@, "text"@));
            },
        }
        assert(marked_blocks(blocks, mark) == blocks);
        assert(plain[i]->Object_0.insert("content"@, JsonView::Array(blocks))
            =~= plain[i]->Object_0);
        assert(plain.update(i, plain[i]) =~= plain);
    }
}

/// A tool, as it goes into a request.
pub open spec fn tool_json(tool: ToolView) -> Map<Seq<char>, JsonView> {
    json::no_fields().insert("name"@, JsonView::String(tool.name)).insert(
        "description"@,
        JsonView::String(tool.description),
    ).insert("input_schema"@, tool.parameters)
}

/// The tools, with the mark on the last one.
pub open spec fn tools_json(tools: Seq<ToolView>, mark: Option<JsonView>) -> Seq<JsonView> {
    Seq::new(
        tools.len(),
        |i: int|
            JsonView::Object(
                if i == tools.len() - 1 {
                    json::with_field(tool_json(tools[i]), "cache_control"@, mark)
                } else {
                    tool_json(tools[i])
                },
            ),
    )
}

/// The system prompt: a marked block of text, or the text alone where nothing
/// is to be cached.
pub open spec fn system_json(prompt: Seq<char>, mark: Option<JsonView>) -> JsonView {
    match mark {
        Some(mark) => JsonView::Array(
            seq![JsonView::Object(text_block(prompt)->Object_0.insert("cache_control"@, mark))],
        ),
        None => JsonView::String(prompt),
    }
}

/// What asks for thinking, where the level allows any.
pub open spec fn thinking_json(reasoning: Option<ThinkingLevel>) -> Option<JsonView> {
    match reasoning {
        Some(level) => match budget(level) {
            Some(tokens) => Some(
                JsonView::Object(
                    json::no_fields().insert("type"@, JsonView::String("enabled"@)).insert(
                        "budget_tokens"@,
                        json::integer(tokens as nat),
                    ),
                ),
            ),
            None => None,
        },
        None => None,
    }
}

/// The body of a request.
pub open spec fn body_json(model: ModelView, context: ContextView, options: OptionsView) -> JsonView {
    let mark = cache_mark(options.cache_retention);
    let plain = messages_json(context.messages);
    let messages = match mark {
        Some(mark) => marked_messages(plain, mark),
        None => plain,
    };
    let limit = match options.max_tokens {
        Some(limit) => limit,
        None => model.max_tokens,
    };
    let fields = json::no_fields().insert("model"@, JsonView::String(model.id)).insert(
        "max_tokens"@,
        json::integer(limit as nat),
    ).insert("messages"@, JsonView::Array(messages)).insert("stream"@, JsonView::Bool(true));
    let fields = json::with_field(
        fields,
        "system"@,
        match context.system_prompt {
            Some(prompt) => Some(system_json(prompt, mark)),
            None => None,
        },
    );
    let fields = json::with_field(fields, "temperature"@, options.temperature);
    let fields = json::with_field(fields, "thinking"@, thinking_json(options.reasoning));
    let fields = json::with_field(
        fields,
        "tools"@,
        if context.tools.len() > 0 {
            Some(JsonView::Array(tools_json(context.tools, mark)))
        } else {
            None
        },
    );
    JsonView::Object(fields)
}

/// An object with the mark.
pub open spec fn with_mark(object: JsonView, mark: JsonView) -> JsonView {
    JsonView::Object(object->Object_0.insert("cache_control"@, mark))
}

/// Whether an object holds a mark.
pub open spec fn holds_mark(object: JsonView) -> bool {
    object is Object && object->Object_0.contains_key("cache_control"@)
}

/// The fields of the body of a request that asks for a given retention.
pub open spec fn body_fields(
    model: ModelView,
    context: ContextView,
    options: OptionsView,
    retention: CacheRetention,
) -> Map<Seq<char>, JsonView> {
    body_json(model, context, OptionsView { cache_retention: retention, ..options })->Object_0
}

/// The tools, without a mark.
pub open spec fn plain_tools(tools: Seq<ToolView>) -> Seq<JsonView> {
    tools.map_values(|tool: ToolView| JsonView::Object(tool_json(tool)))
}

/// The blocks of a message.
pub open spec fn blocks_of(message: JsonView) -> Seq<JsonView> {
    message->Object_0["content"@]->Array_0
}

/// Whether some messages are others with the mark on one block, which is a text
/// of the user.
pub open spec fn marked_at(
    plain: Seq<JsonView>,
    marked: Seq<JsonView>,
    mark: JsonView,
    i: int,
    k: int,
) -> bool {
    &&& 0 <= i < plain.len()
    &&& has_text(plain[i], "role"@, "user"@)
    &&& 0 <= k < blocks_of(plain[i]).len()
    &&& has_text(blocks_of(plain[i])[k], "type"@, "text"@)
    &&& marked == plain.update(
        i,
        JsonView::Object(
            plain[i]->Object_0.insert(
                "content"@,
                JsonView::Array(
                    blocks_of(plain[i]).update(k, with_mark(blocks_of(plain[i])[k], mark)),
                ),
            ),
        ),
    )
}

/// The keys of a body are all different.
proof fn lemma_body_keys()
    ensures
        "model"@ != "messages"@,
        "model"@ != "system"@,
        "model"@ != "tools"@,
        "max_tokens"@ != "messages"@,
        "max_tokens"@ != "system"@,
        "max_tokens"@ != "tools"@,
        "messages"@ != "stream"@,
        "messages"@ != "system"@,
        "messages"@ != "temperature"@,
        "messages"@ != "thinking"@,
        "messages"@ != "tools"@,
        "stream"@ != "system"@,
        "stream"@ != "tools"@,
        "system"@ != "temperature"@,
        "system"@ != "thinking"@,
        "system"@ != "tools"@,
        "temperature"@ != "tools"@,
        "thinking"@ != "tools"@,
{
    reveal_strlit("model");
    reveal_strlit("max_tokens");
    reveal_strlit("messages");
    reveal_strlit("stream");
    reveal_strlit("system");
    reveal_strlit("temperature");
    reveal_strlit("thinking");
    reveal_strlit("tools");
    assert("model"@.len() == 5 && "tools"@.len() == 5);
    assert("stream"@.len() == 6 && "system"@.len() == 6);
    assert("messages"@.len() == 8 && "thinking"@.len() == 8);
    assert("max_tokens"@.len() == 10 && "temperature"@.len() == 11);
    assert("model"@[0] != "tools"@[0]);
    assert("messages"@[0] != "thinking"@[0]);
    assert("stream"@[1] != "system"@[1]);
}

/// What a body holds for the keys that the retention has to do with, and that
/// it has nothing to do with the others.
pub proof fn lemma_body_fields(
    model: ModelView,
    context: ContextView,
    options: OptionsView,
    retention: CacheRetention,
)
    ensures
        ({
            let mark = cache_mark(retention);
            let fields = body_fields(model, context, options, retention);
            let plain = body_fields(model, context, options, CacheRetention::Off);
            &&& fields.dom() == plain.dom()
            &&& forall|key: Seq<char>|
                key != "messages"@ && key != "system"@ && key != "tools"@ ==> #[trigger] fields[key]
                    == plain[key]
            &&& fields.contains_key("messages"@)
            &&& fields["messages"@] == JsonView::Array(
                match mark {
                    Some(mark) => marked_messages(messages_json(context.messages), mark),
                    None => messages_json(context.messages),
                },
            )
            &&& fields.contains_key("system"@) == (context.system_prompt is Some)
            &&& context.system_prompt matches Some(prompt) ==> fields["system"@] == system_json(
                prompt,
                mark,
            )
            &&& fields.contains_key("tools"@) == (context.tools.len() > 0)
            &&& context.tools.len() > 0 ==> fields["tools"@] == JsonView::Array(
                tools_json(context.tools, mark),
            )
        }),
{
    lemma_body_keys();
    let fields = body_fields(model, context, options, retention);
    let plain = body_fields(model, context, options, CacheRetention::Off);
    assert(fields.dom() =~= plain.dom());
}

/// The tools without a mark, and with one on the last.
pub proof fn lemma_tools(tools: Seq<ToolView>, mark: JsonView)
    ensures
        tools_json(tools, None) == plain_tools(tools),
        tools.len() > 0 ==> tools_json(tools, Some(mark)) == plain_tools(tools).update(
            tools.len() - 1,
            with_mark(plain_tools(tools)[tools.len() - 1], mark),
        ),
{
    assert(tools_json(tools, None) =~= plain_tools(tools));
    if tools.len() > 0 {
        assert(tools_json(tools, Some(mark)) =~= plain_tools(tools).update(
            tools.len() - 1,
            with_mark(plain_tools(tools)[tools.len() - 1], mark),
        ));
    }
}

proof fn lemma_marked_messages(messages: Seq<MessageView>, mark: JsonView)
    ensures
        ({
            let plain = messages_json(messages);
            let marked = marked_messages(plain, mark);
            marked == plain || exists|i: int, k: int| marked_at(plain, marked, mark, i, k)
        }),
{
    let plain = messages_json(messages);
    let marked = marked_messages(plain, mark);
    lemma_last_with(plain, "role"@, "user"@);
    if let Some(i) = last_with(plain, "role"@, "user"@) {
        lemma_roles(messages[i]);
        assert(plain[i] == message_json(messages[i]));
        let blocks = blocks_of(plain[i]);
        lemma_last_with(blocks, "type"@, "text"@);
        match last_with(blocks, "type"@, "text"@) {
            Some(k) => {
                assert(marked_at(plain, marked, mark, i, k));
            },
            None => {
                assert(plain[i]->Object_0.insert("content"@, JsonView::Array(blocks))
                    =~= plain[i]->Object_0);
                assert(marked =~= plain);
            },
        }
    }
}

proof fn lemma_no_marks(message: MessageView)
    ensures
        forall|k: int|
            0 <= k < blocks_of(message_json(message)).len() ==> !holds_mark(
                #[trigger] blocks_of(message_json(message))[k],
            ),
{
    reveal_strlit("cache_control");
    reveal_strlit("type");
    reveal_strlit("text");
    reveal_strlit("thinking");
    reveal_strlit("signature");
    reveal_strlit("source");
    reveal_strlit("id");
    reveal_strlit("name");
    reveal_strlit("input");
    reveal_strlit("tool_use_id");
    reveal_strlit("content");
    reveal_strlit("is_error");
    assert("cache_control"@.len() == 13);
}

proof fn lemma_no_tool_marks(tools: Seq<ToolView>)
    ensures
        forall|i: int| 0 <= i < tools.len() ==> !holds_mark(#[trigger] plain_tools(tools)[i]),
{
    reveal_strlit("cache_control");
    reveal_strlit("name");
    reveal_strlit("description");
    reveal_strlit("input_schema");
    assert("cache_control"@.len() == 13);
}

/// Without retention nothing is marked: the messages and the tools go out as
/// they are, and the system prompt is a text.
pub proof fn law_without_retention_nothing_is_marked(
    model: ModelView,
    context: ContextView,
    options: OptionsView,
)
    ensures
        ({
            let plain = body_fields(model, context, options, CacheRetention::Off);
            let messages = messages_json(context.messages);
            let tools = plain_tools(context.tools);
            &&& plain["messages"@] == JsonView::Array(messages)
            &&& forall|i: int, k: int|
                0 <= i < messages.len() && 0 <= k < blocks_of(messages[i]).len() ==> !holds_mark(
                    #[trigger] blocks_of(messages[i])[k],
                )
            &&& context.system_prompt matches Some(prompt) ==> plain["system"@]
                == JsonView::String(prompt)
            &&& context.tools.len() > 0 ==> plain["tools"@] == JsonView::Array(tools)
            &&& forall|i: int| 0 <= i < tools.len() ==> !holds_mark(#[trigger] tools[i])
        }),
{
    lemma_body_fields(model, context, options, CacheRetention::Off);
    lemma_tools(context.tools, JsonView::Null);
    lemma_no_tool_marks(context.tools);
    let messages = messages_json(context.messages);
    assert forall|i: int, k: int|
        0 <= i < messages.len() && 0 <= k < blocks_of(messages[i]).len() implies !holds_mark(
        #[trigger] blocks_of(messages[i])[k],
    ) by {
        assert(messages[i] == message_json(context.messages[i]));
        lemma_no_marks(context.messages[i]);
    }
}

/// A retention adds the marks and changes nothing else. Compared with the body
/// without retention: the same fields are there, and all but the messages, the
/// system prompt and the tools are equal; the system prompt is one block of its
/// text with the mark; the last tool has the mark; and at most one message
/// differs, in the mark on one of its texts.
pub proof fn law_retention_adds_the_marks_alone(
    model: ModelView,
    context: ContextView,
    options: OptionsView,
    retention: CacheRetention,
)
    requires
        retention != CacheRetention::Off,
    ensures
        ({
            let mark = cache_mark(retention)->0;
            let plain = body_fields(model, context, options, CacheRetention::Off);
            let marked = body_fields(model, context, options, retention);
            let messages = messages_json(context.messages);
            let tools = plain_tools(context.tools);
            &&& marked.dom() == plain.dom()
            &&& forall|key: Seq<char>|
                key != "messages"@ && key != "system"@ && key != "tools"@ ==> #[trigger] marked[key]
                    == plain[key]
            &&& plain.contains_key("system"@) == (context.system_prompt is Some)
            &&& context.system_prompt matches Some(prompt) ==> {
                &&& plain["system"@] == JsonView::String(prompt)
                &&& marked["system"@] == JsonView::Array(
                    seq![with_mark(text_block(prompt), mark)],
                )
            }
            &&& plain.contains_key("tools"@) == (context.tools.len() > 0)
            &&& context.tools.len() > 0 ==> {
                &&& plain["tools"@] == JsonView::Array(tools)
                &&& marked["tools"@] == JsonView::Array(
                    tools.update(tools.len() - 1, with_mark(tools.last(), mark)),
                )
            }
            &&& plain["messages"@] == JsonView::Array(messages)
            &&& marked["messages"@] is Array
            &&& marked["messages"@]->Array_0 == messages || exists|i: int, k: int|
                marked_at(messages, marked["messages"@]->Array_0, mark, i, k)
        }),
{
    let mark = cache_mark(retention)->0;
    lemma_body_fields(model, context, options, retention);
    lemma_body_fields(model, context, options, CacheRetention::Off);
    lemma_tools(context.tools, mark);
    lemma_marked_messages(context.messages, mark);
}

/// An object without its mark.
pub open spec fn without_mark(object: JsonView) -> JsonView {
    JsonView::Object(object->Object_0.remove("cache_control"@))
}

/// A message without the marks of its blocks.
pub open spec fn unmarked_message(message: JsonView) -> JsonView {
    JsonView::Object(
        message->Object_0.insert(
            "content"@,
            JsonView::Array(blocks_of(message).map_values(|block: JsonView| without_mark(block))),
        ),
    )
}

/// The text of a system prompt, whether it stands alone or in a block.
pub open spec fn system_text(system: JsonView) -> JsonView {
    match system {
        JsonView::Array(blocks) => blocks[0]->Object_0["text"@],
        _ => system,
    }
}

/// The fields of a body without the marks.
pub open spec fn unmarked_fields(fields: Map<Seq<char>, JsonView>) -> Map<Seq<char>, JsonView> {
    fields.map_entries(
        |key: Seq<char>, value: JsonView|
            if key == "messages"@ {
                JsonView::Array(value->Array_0.map_values(|m: JsonView| unmarked_message(m)))
            } else if key == "system"@ {
                system_text(value)
            } else if key == "tools"@ {
                JsonView::Array(value->Array_0.map_values(|tool: JsonView| without_mark(tool)))
            } else {
                value
            },
    )
}

proof fn lemma_without_mark(object: JsonView, mark: JsonView)
    requires
        object is Object,
        !holds_mark(object),
    ensures
        without_mark(object) == object,
        without_mark(with_mark(object, mark)) == object,
{
    assert(object->Object_0.remove("cache_control"@) =~= object->Object_0);
    assert(object->Object_0.insert("cache_control"@, mark).remove("cache_control"@)
        =~= object->Object_0);
}

proof fn lemma_blocks_are_objects(message: MessageView)
    ensures
        forall|k: int|
            0 <= k < blocks_of(message_json(message)).len() ==> (
            #[trigger] blocks_of(message_json(message))[k]) is Object,
{
}

proof fn lemma_unmarked_message(message: MessageView)
    ensures
        unmarked_message(message_json(message)) == message_json(message),
{
    let plain = message_json(message);
    let blocks = blocks_of(plain);
    lemma_roles(message);
    lemma_no_marks(message);
    lemma_blocks_are_objects(message);
    assert forall|k: int| 0 <= k < blocks.len() implies without_mark(#[trigger] blocks[k])
        == blocks[k] by {
        lemma_without_mark(blocks[k], JsonView::Null);
    }
    assert(blocks.map_values(|block: JsonView| without_mark(block)) =~= blocks);
    assert(plain->Object_0.insert("content"@, JsonView::Array(blocks)) =~= plain->Object_0);
}

proof fn lemma_unmarked_messages(messages: Seq<MessageView>, mark: JsonView)
    ensures
        messages_json(messages).map_values(|m: JsonView| unmarked_message(m)) == messages_json(
            messages,
        ),
        marked_messages(messages_json(messages), mark).map_values(
            |m: JsonView| unmarked_message(m),
        ) == messages_json(messages),
{
    let plain = messages_json(messages);
    let marked = marked_messages(plain, mark);
    assert forall|i: int| 0 <= i < plain.len() implies unmarked_message(#[trigger] plain[i])
        == plain[i] by {
        lemma_unmarked_message(messages[i]);
    }
    assert(plain.map_values(|m: JsonView| unmarked_message(m)) =~= plain);
    lemma_marked_messages(messages, mark);
    if marked != plain {
        let (i, k) = choose|i: int, k: int| marked_at(plain, marked, mark, i, k);
        let fields = plain[i]->Object_0;
        let blocks = blocks_of(plain[i]);
        let changed = blocks.update(k, with_mark(blocks[k], mark));
        lemma_roles(messages[i]);
        lemma_no_marks(messages[i]);
        lemma_blocks_are_objects(messages[i]);
        assert(plain[i] == message_json(messages[i]));
        assert(blocks_of(marked[i]) == changed);
        assert forall|j: int| 0 <= j < blocks.len() implies without_mark(#[trigger] changed[j])
            == blocks[j] by {
            lemma_without_mark(blocks[j], mark);
        }
        assert(changed.map_values(|block: JsonView| without_mark(block)) =~= blocks);
        assert(fields.insert("content"@, JsonView::Array(changed)).insert(
            "content"@,
            JsonView::Array(blocks),
        ) =~= fields);
        assert(unmarked_message(marked[i]) == plain[i]);
        assert(marked.map_values(|m: JsonView| unmarked_message(m)) =~= plain);
    }
}

/// Once the marks are dropped, and a system prompt in a block is read as its
/// text, the body is the same for every retention: it is the one without
/// retention.
pub proof fn law_bodies_differ_in_the_marks_alone(
    model: ModelView,
    context: ContextView,
    options: OptionsView,
    retention: CacheRetention,
)
    ensures
        unmarked_fields(body_fields(model, context, options, retention)) == body_fields(
            model,
            context,
            options,
            CacheRetention::Off,
        ),
{
    let mark = match cache_mark(retention) {
        Some(mark) => mark,
        None => JsonView::Null,
    };
    let fields = body_fields(model, context, options, retention);
    let plain = body_fields(model, context, options, CacheRetention::Off);
    lemma_body_fields(model, context, options, retention);
    lemma_body_fields(model, context, options, CacheRetention::Off);
    lemma_unmarked_messages(context.messages, mark);
    lemma_tools(context.tools, mark);
    lemma_no_tool_marks(context.tools);
    let tools = plain_tools(context.tools);
    let sent = tools_json(context.tools, cache_mark(retention));
    assert forall|i: int| 0 <= i < sent.len() implies without_mark(#[trigger] sent[i])
        == tools[i] by {
        lemma_without_mark(tools[i], mark);
    }
    assert(sent.map_values(|tool: JsonView| without_mark(tool)) =~= tools);
    if let Some(prompt) = context.system_prompt {
        reveal_strlit("text");
        reveal_strlit("cache_control");
        assert("text"@.len() != "cache_control"@.len());
        assert(system_text(system_json(prompt, cache_mark(retention))) == JsonView::String(prompt));
    }
    lemma_body_keys();
    assert(unmarked_fields(fields) =~= plain);
}

fn convert_tools(tools: &Vec<Tool>, mark: &Option<Json>) -> (out: Vec<Json>)
    ensures
        json::items_view(out@) == tools_json(tools.deep_view(), mark.deep_view()),
{
    let ghost all = tools_json(tools.deep_view(), mark.deep_view());
    let mut out: Vec<Json> = Vec::new();
    for i in 0..tools.len()
        invariant
            all == tools_json(tools.deep_view(), mark.deep_view()),
            json::items_view(out@) =~= all.take(i as int),
    {
        let tool = &tools[i];
        assert(tools.deep_view()[i as int] == tool.deep_view());
        let mut fields: Vec<(String, Json)> = Vec::new();
        set_field(&mut fields, "name", Json::text(tool.name.as_str()));
        set_field(&mut fields, "description", Json::text(tool.description.as_str()));
        set_field(&mut fields, "input_schema", tool.parameters.clone());
        if i == tools.len() - 1 {
            json::set_optional(&mut fields, "cache_control", mark.clone());
        }
        let item = Json::Object(fields);
        assert(item@ == all[i as int]);
        push_item(&mut out, item);
    }
    assert(all.take(all.len() as int) =~= all);
    out
}

fn convert_system(prompt: &str, mark: &Option<Json>) -> (out: Json)
    ensures
        out@ == system_json(prompt@, mark.deep_view()),
{
    match mark {
        Some(mark) => {
            let mut fields: Vec<(String, Json)> = Vec::new();
            set_field(&mut fields, "type", Json::text("text"));
            set_field(&mut fields, "text", Json::text(prompt));
            set_field(&mut fields, "cache_control", mark.clone());
            json::single(Json::Object(fields))
        },
        None => Json::text(prompt),
    }
}

fn convert_thinking(reasoning: Option<ThinkingLevel>) -> (out: Option<Json>)
    ensures
        out.deep_view() == thinking_json(reasoning),
{
    match reasoning {
        Some(level) => match thinking_budget(level) {
            Some(tokens) => {
                let mut fields: Vec<(String, Json)> = Vec::new();
                set_field(&mut fields, "type", Json::text("enabled"));
                set_field(&mut fields, "budget_tokens", Json::Integer(tokens as u64));
                Some(Json::Object(fields))
            },
            None => None,
        },
        None => None,
    }
}

fn build_body(model: &Model, context: &Context, options: &StreamOptions) -> (body: Json)
    ensures
        body@ == body_json(model.deep_view(), context.deep_view(), options.deep_view()),
{
    let mark = cache_control_json(options.cache_retention);
    let mut messages = convert_messages(&context.messages);
    if let Some(mark) = &mark {
        mark_messages(&mut messages, mark);
    }
    let limit = match options.max_tokens {
        Some(limit) => limit,
        None => model.max_tokens,
    };
    let mut fields: Vec<(String, Json)> = Vec::new();
    set_field(&mut fields, "model", Json::text(model.id.as_str()));
    set_field(&mut fields, "max_tokens", Json::Integer(limit));
    set_field(&mut fields, "messages", Json::Array(messages));
    set_field(&mut fields, "stream", Json::Bool(true));
    if let Some(prompt) = &context.system_prompt {
        set_field(&mut fields, "system", convert_system(prompt.as_str(), &mark));
    }
    json::set_optional(&mut fields, "temperature", options.temperature.clone());
    json::set_optional(&mut fields, "thinking", convert_thinking(options.reasoning));
    if context.tools.len() > 0 {
        let tools = convert_tools(&context.tools, &mark);
        set_field(&mut fields, "tools", Json::Array(tools));
    }
    Json::Object(fields)
}

/// The raw body of a Messages request, for inspection. Streaming sends the
/// same body.
pub fn build_request_body(model: &Model, context: &Context, options: &StreamOptions) -> (body: Json)
    ensures
        body@ == body_json(model.deep_view(), context.deep_view(), options.deep_view()),
{
    build_body(model, context, options)
}

/// The Anthropic Messages API.
#[derive(Clone, Copy, Debug, PartialEq, Eq)]
pub struct AnthropicProvider {
    pool_max_idle_per_host: usize,
}

impl AnthropicProvider {
    /// The provider, with four idle connections for each host.
    pub fn new() -> (provider: Self)
        ensures
            provider.idle_limit() == Some(4usize),
    {
        AnthropicProvider { pool_max_idle_per_host: 4 }
    }
}

impl Default for AnthropicProvider {
    fn default() -> (provider: Self)
        ensures
            provider.idle_limit() == Some(4usize),
    {
        AnthropicProvider::new()
    }
}

/// The headers that every request has.
pub open spec fn own_headers(key: Seq<char>) -> Seq<(Seq<char>, Seq<char>)> {
    seq![
        ("x-api-key"@, key),
        ("anthropic-version"@, "2023-06-01"@),
        ("accept"@, "text/event-stream"@),
        ("content-type"@, "application/json"@),
    ]
}

impl Provider for AnthropicProvider {
    open spec fn label(&self) -> Seq<char> {
        "anthropic"@
    }

    open spec fn variables(&self) -> Seq<Seq<char>> {
        seq!["ANTHROPIC_API_KEY"@]
    }

    closed spec fn idle_limit(&self) -> Option<usize> {
        Some(self.pool_max_idle_per_host)
    }

    open spec fn request_view(
        &self,
        model: ModelView,
        context: ContextView,
        options: OptionsView,
        key: Seq<char>,
    ) -> RequestView {
        RequestView {
            url: request::base_of(options.base_url, model.base_url) + "/v1/messages"@,
            bearer: None,
            headers: own_headers(key) + options.headers,
            logged: headers::with_headers(
                headers::with_headers(Seq::empty(), own_headers(key)),
                options.headers,
            ),
            body: body_json(model, context, options),
        }
    }

    fn name(&self) -> (name: &'static str) {
        "anthropic"
    }

    fn key_variables(&self) -> (names: Vec<&'static str>) {
        let mut names: Vec<&'static str> = Vec::new();
        names.push("ANTHROPIC_API_KEY");
        assert(names.deep_view() =~= self.variables());
        names
    }

    fn pool_max_idle_per_host(&self) -> (limit: Option<usize>) {
        Some(self.pool_max_idle_per_host)
    }

    fn build_request(
        &self,
        model: &Model,
        context: &Context,
        options: &StreamOptions,
        key: &str,
    ) -> (request: ProviderRequest) {
        let url = request::choose_base(&options.base_url, model.base_url.as_str()).to_owned().concat(
            "/v1/messages",
        );
        let mut list: Vec<(String, String)> = Vec::new();
        request::add_header(&mut list, "x-api-key", key);
        request::add_header(&mut list, "anthropic-version", "2023-06-01");
        request::add_header(&mut list, "accept", "text/event-stream");
        request::add_header(&mut list, "content-type", "application/json");
        assert(list.deep_view() =~= own_headers(key@));
        let logged = request::logged_headers(&list, &options.headers);
        request::add_headers(&mut list, &options.headers);
        ProviderRequest {
            url,
            bearer: None,
            headers: list,
            logged,
            body: build_body(model, context, options),
        }
    }
}

/// What is shown of a request does not depend on the key.
pub proof fn law_key_is_not_shown(
    provider: AnthropicProvider,
    model: ModelView,
    context: ContextView,
    options: OptionsView,
    key: Seq<char>,
    other: Seq<char>,
)
    ensures
        debug::shown(model, provider.request_view(model, context, options, key)) == debug::shown(
            model,
            provider.request_view(model, context, options, other),
        ),
{
    let start: Seq<(Seq<char>, Seq<char>)> = Seq::empty();
    reveal_strlit("x-api-key");
    assert(crate::text::lower_text("x-api-key"@) =~= "x-api-key"@);
    assert(debug::alike(own_headers(key), own_headers(other)));
    debug::lemma_alike_with_headers(start, start, own_headers(key), own_headers(other));
    debug::lemma_alike_with_headers(
        headers::with_headers(start, own_headers(key)),
        headers::with_headers(start, own_headers(other)),
        options.headers,
        options.headers,
    );
    debug::law_secrets_are_not_shown(
        model,
        provider.request_view(model, context, options, key),
        provider.request_view(model, context, options, other),
    );
}

} // verus!
