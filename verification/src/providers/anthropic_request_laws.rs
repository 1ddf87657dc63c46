//! What an Anthropic request says, read back field by field.

use vstd::prelude::*;

use crate::headers;
use crate::json::JsonView;
use crate::providers::anthropic;
use crate::providers::anthropic::AnthropicProvider;
use crate::providers::reading::{field, has_exactly, names, string, whole};
use crate::providers::Provider;
use crate::types::{
    CacheRetention, ContentView, ContextView, MessageView, ModelView, OptionsView, ThinkingLevel,
    ToolResultView, ToolView,
};

verus! {

/// Whether a block says a text.
pub open spec fn says_text(block: JsonView, text: Seq<char>) -> bool {
    &&& block is Object
    &&& names(block) == set!["type"@, "text"@]
    &&& field(block, "type"@) == string("text"@)
    &&& field(block, "text"@) == string(text)
}

/// Whether a block shows an image.
pub open spec fn shows_image(block: JsonView, data: Seq<char>, mime_type: Seq<char>) -> bool {
    &&& block is Object
    &&& names(block) == set!["type"@, "source"@]
    &&& field(block, "type"@) == string("image"@)
    &&& field(block, "source"@) is Object
    &&& names(field(block, "source"@)) == set!["type"@, "media_type"@, "data"@]
    &&& field(field(block, "source"@), "type"@) == string("base64"@)
    &&& field(field(block, "source"@), "media_type"@) == string(mime_type)
    &&& field(field(block, "source"@), "data"@) == string(data)
}

/// Whether a block says a piece of a message.
pub open spec fn says_piece(block: JsonView, content: ContentView) -> bool {
    match content {
        ContentView::Text { text } => says_text(block, text),
        ContentView::Image { data, mime_type } => shows_image(block, data, mime_type),
        ContentView::Thinking { thinking, thinking_signature } => {
            &&& block is Object
            &&& field(block, "type"@) == string("thinking"@)
            &&& field(block, "thinking"@) == string(thinking)
            &&& thinking_signature is None ==> names(block) == set!["type"@, "thinking"@]
            &&& thinking_signature matches Some(signature) ==> names(block) == set![
                "type"@,
                "thinking"@,
                "signature"@,
            ] && field(block, "signature"@) == string(signature)
        },
        ContentView::ToolCall { id, name, arguments } => {
            &&& block is Object
            &&& names(block) == set!["type"@, "id"@, "name"@, "input"@]
            &&& field(block, "type"@) == string("tool_use"@)
            &&& field(block, "id"@) == string(id)
            &&& field(block, "name"@) == string(name)
            &&& field(block, "input"@) == arguments
        },
    }
}

/// Whether a block says a piece of a tool result: texts and images are said, and
/// anything else is an empty text.
pub open spec fn says_result_piece(block: JsonView, content: ContentView) -> bool {
    match content {
        ContentView::Text { text } => says_text(block, text),
        ContentView::Image { data, mime_type } => shows_image(block, data, mime_type),
        _ => says_text(block, ""@),
    }
}

/// Whether a message goes out in a role with a content.
pub open spec fn in_role(json: JsonView, role: Seq<char>) -> bool {
    &&& json is Object
    &&& names(json) == set!["role"@, "content"@]
    &&& field(json, "role"@) == string(role)
    &&& field(json, "content"@) is Array
}

/// The blocks of a message.
pub open spec fn blocks(json: JsonView) -> Seq<JsonView> {
    field(json, "content"@)->Array_0
}

/// Whether blocks say the pieces of a message, each its own.
pub open spec fn say_pieces(blocks: Seq<JsonView>, content: Seq<ContentView>) -> bool {
    &&& blocks.len() == content.len()
    &&& forall|k: int| 0 <= k < content.len() ==> says_piece(#[trigger] blocks[k], content[k])
}

/// Whether a message says a message of a conversation.
pub open spec fn says_message(json: JsonView, message: MessageView) -> bool {
    match message {
        MessageView::User { content, .. } => in_role(json, "user"@) && say_pieces(
            blocks(json),
            content,
        ),
        MessageView::Assistant(answer) => in_role(json, "assistant"@) && say_pieces(
            blocks(json),
            answer.content,
        ),
        MessageView::ToolResult(result) => {
            let block = blocks(json)[0];
            let inner = field(block, "content"@)->Array_0;
            &&& in_role(json, "user"@)
            &&& blocks(json).len() == 1
            &&& block is Object
            &&& names(block) == set!["type"@, "tool_use_id"@, "content"@, "is_error"@]
            &&& field(block, "type"@) == string("tool_result"@)
            &&& field(block, "tool_use_id"@) == string(result.tool_call_id)
            &&& field(block, "is_error"@) == JsonView::Bool(result.is_error)
            &&& field(block, "content"@) is Array
            &&& inner.len() == result.content.len()
            &&& forall|k: int|
                0 <= k < result.content.len() ==> says_result_piece(
                    #[trigger] inner[k],
                    result.content[k],
                )
        },
    }
}

proof fn lemma_names()
    ensures
        "type"@ != "text"@,
        "type"@ != "source"@,
        "type"@ != "media_type"@,
        "type"@ != "data"@,
        "media_type"@ != "data"@,
        "type"@ != "thinking"@,
        "type"@ != "signature"@,
        "thinking"@ != "signature"@,
        "type"@ != "id"@,
        "type"@ != "name"@,
        "type"@ != "input"@,
        "id"@ != "name"@,
        "id"@ != "input"@,
        "name"@ != "input"@,
        "role"@ != "content"@,
        "type"@ != "tool_use_id"@,
        "type"@ != "content"@,
        "type"@ != "is_error"@,
        "tool_use_id"@ != "content"@,
        "tool_use_id"@ != "is_error"@,
        "content"@ != "is_error"@,
{
    reveal_strlit("type");
    reveal_strlit("text");
    reveal_strlit("source");
    reveal_strlit("media_type");
    reveal_strlit("data");
    reveal_strlit("thinking");
    reveal_strlit("signature");
    reveal_strlit("id");
    reveal_strlit("name");
    reveal_strlit("input");
    reveal_strlit("role");
    reveal_strlit("content");
    reveal_strlit("tool_use_id");
    reveal_strlit("is_error");
    assert("type"@.len() == 4 && "text"@.len() == 4 && "data"@.len() == 4 && "name"@.len() == 4);
    assert("type"@[1] != "text"@[1]);
    assert("type"@[0] != "data"@[0]);
    assert("type"@[0] != "name"@[0]);
    assert("role"@.len() == 4 && "id"@.len() == 2 && "input"@.len() == 5 && "source"@.len() == 6);
    assert("content"@.len() == 7 && "thinking"@.len() == 8 && "is_error"@.len() == 8);
    assert("signature"@.len() == 9 && "media_type"@.len() == 10 && "tool_use_id"@.len() == 11);
}

proof fn lemma_text_block(text: Seq<char>)
    ensures
        says_text(anthropic::text_block(text), text),
{
    lemma_names();
    assert(names(anthropic::text_block(text)) =~= set!["type"@, "text"@]);
}

proof fn lemma_image_block(data: Seq<char>, mime_type: Seq<char>)
    ensures
        shows_image(anthropic::image_block(data, mime_type), data, mime_type),
{
    lemma_names();
    let block = anthropic::image_block(data, mime_type);
    assert(names(block) =~= set!["type"@, "source"@]);
    assert(names(field(block, "source"@)) =~= set!["type"@, "media_type"@, "data"@]);
}

/// Every piece of a message becomes a block that says it.
pub proof fn law_pieces_are_said(content: ContentView)
    ensures
        says_piece(anthropic::block_json(content), content),
{
    lemma_names();
    let block = anthropic::block_json(content);
    match content {
        ContentView::Text { text } => {
            lemma_text_block(text);
        },
        ContentView::Image { data, mime_type } => {
            lemma_image_block(data, mime_type);
        },
        ContentView::Thinking { thinking, thinking_signature } => {
            if thinking_signature is Some {
                assert(names(block) =~= set!["type"@, "thinking"@, "signature"@]);
            } else {
                assert(names(block) =~= set!["type"@, "thinking"@]);
            }
        },
        ContentView::ToolCall { id, name, arguments } => {
            assert(names(block) =~= set!["type"@, "id"@, "name"@, "input"@]);
        },
    }
}

/// Every message of a conversation becomes a message that says it: who speaks,
/// and each piece in its place. A tool result says which call it answers,
/// whether it is an error, and what the tool gave back.
pub proof fn law_messages_are_said(message: MessageView)
    ensures
        says_message(anthropic::message_json(message), message),
{
    lemma_names();
    let json = anthropic::message_json(message);
    assert(names(json) =~= set!["role"@, "content"@]);
    match message {
        MessageView::User { content, .. } => {
            assert forall|k: int| 0 <= k < content.len() implies says_piece(
                #[trigger] blocks(json)[k],
                content[k],
            ) by {
                law_pieces_are_said(content[k]);
            }
        },
        MessageView::Assistant(answer) => {
            assert forall|k: int| 0 <= k < answer.content.len() implies says_piece(
                #[trigger] blocks(json)[k],
                answer.content[k],
            ) by {
                law_pieces_are_said(answer.content[k]);
            }
        },
        MessageView::ToolResult(result) => {
            let block = blocks(json)[0];
            let inner = field(block, "content"@)->Array_0;
            assert(names(block) =~= set!["type"@, "tool_use_id"@, "content"@, "is_error"@]);
            assert forall|k: int| 0 <= k < result.content.len() implies says_result_piece(
                #[trigger] inner[k],
                result.content[k],
            ) by {
                match result.content[k] {
                    ContentView::Text { text } => {
                        lemma_text_block(text);
                    },
                    ContentView::Image { data, mime_type } => {
                        lemma_image_block(data, mime_type);
                    },
                    _ => {
                        lemma_text_block(""@);
                    },
                }
            }
        },
    }
}

/// Two tool results that are sent alike answer the same call, are both errors or
/// both none, and hold the same texts.
pub proof fn law_results_are_told_apart(one: ToolResultView, other: ToolResultView)
    requires
        anthropic::message_json(MessageView::ToolResult(one)) == anthropic::message_json(
            MessageView::ToolResult(other),
        ),
    ensures
        one.tool_call_id == other.tool_call_id,
        one.is_error == other.is_error,
        one.content.len() == other.content.len(),
        forall|k: int|
            0 <= k < one.content.len() && #[trigger] one.content[k] is Text
                && #[trigger] other.content[k] is Text ==> one.content[k] == other.content[k],
{
    let json = anthropic::message_json(MessageView::ToolResult(one));
    law_messages_are_said(MessageView::ToolResult(one));
    law_messages_are_said(MessageView::ToolResult(other));
    let inner = field(blocks(json)[0], "content"@)->Array_0;
    assert forall|k: int|
        0 <= k < one.content.len() && #[trigger] one.content[k] is Text
            && #[trigger] other.content[k] is Text implies one.content[k] == other.content[k] by {
        assert(says_result_piece(inner[k], one.content[k]));
        assert(says_result_piece(inner[k], other.content[k]));
    }
}

/// How many tokens of thinking a level allows.
pub open spec fn tokens_of(level: ThinkingLevel) -> Option<int> {
    match level {
        ThinkingLevel::Off => None,
        ThinkingLevel::Minimal => Some(1024),
        ThinkingLevel::Low => Some(2048),
        ThinkingLevel::Medium => Some(8192),
        ThinkingLevel::High => Some(16384),
        ThinkingLevel::Xhigh => Some(24576),
    }
}

/// Whether a tool is described.
pub open spec fn describes(json: JsonView, tool: ToolView) -> bool {
    &&& json is Object
    &&& names(json) == set!["name"@, "description"@, "input_schema"@]
    &&& field(json, "name"@) == string(tool.name)
    &&& field(json, "description"@) == string(tool.description)
    &&& field(json, "input_schema"@) == tool.parameters
}

/// Without retention, a body says what it is asked to say and nothing else: the
/// model, the limit of the options or else that of the model, every message of
/// the conversation in its place, that the answer is to be streamed, and, where
/// there are any, the system prompt, the temperature, the thinking and every
/// tool in its place.
pub proof fn law_body_says_what_is_asked(
    model: ModelView,
    context: ContextView,
    options: OptionsView,
)
    requires
        options.cache_retention == CacheRetention::Off,
    ensures
        ({
            let body = anthropic::body_json(model, context, options);
            let messages = field(body, "messages"@)->Array_0;
            let tools = field(body, "tools"@)->Array_0;
            &&& body is Object
            &&& forall|name: Seq<char>| #[trigger]
                names(body).contains(name) ==> name == "model"@ || name == "max_tokens"@ || name
                    == "messages"@ || name == "stream"@ || name == "system"@ || name
                    == "temperature"@ || name == "thinking"@ || name == "tools"@
            &&& has_exactly(body, "model"@, Some(string(model.id)))
            &&& options.max_tokens matches Some(limit) ==> has_exactly(
                body,
                "max_tokens"@,
                Some(whole(limit as int)),
            )
            &&& options.max_tokens is None ==> has_exactly(
                body,
                "max_tokens"@,
                Some(whole(model.max_tokens as int)),
            )
            &&& has_exactly(body, "stream"@, Some(JsonView::Bool(true)))
            &&& context.system_prompt matches Some(prompt) ==> has_exactly(
                body,
                "system"@,
                Some(string(prompt)),
            )
            &&& context.system_prompt is None ==> has_exactly(body, "system"@, None)
            &&& has_exactly(body, "temperature"@, options.temperature)
            &&& names(body).contains("messages"@)
            &&& field(body, "messages"@) is Array
            &&& messages.len() == context.messages.len()
            &&& forall|i: int|
                0 <= i < messages.len() ==> says_message(#[trigger] messages[i], context.messages[i])
            &&& names(body).contains("tools"@) <==> context.tools.len() > 0
            &&& context.tools.len() > 0 ==> field(body, "tools"@) is Array && tools.len()
                == context.tools.len() && forall|i: int|
                0 <= i < tools.len() ==> describes(#[trigger] tools[i], context.tools[i])
        }),
{
    let body = anthropic::body_json(model, context, options);
    lemma_body_names();
    let messages = field(body, "messages"@)->Array_0;
    assert forall|i: int| 0 <= i < messages.len() implies says_message(
        #[trigger] messages[i],
        context.messages[i],
    ) by {
        law_messages_are_said(context.messages[i]);
    }
    if context.tools.len() > 0 {
        let tools = field(body, "tools"@)->Array_0;
        assert forall|i: int| 0 <= i < tools.len() implies describes(
            #[trigger] tools[i],
            context.tools[i],
        ) by {
            lemma_tool(context.tools[i]);
        }
    }
}

proof fn lemma_tool(tool: ToolView)
    ensures
        describes(JsonView::Object(anthropic::tool_json(tool)), tool),
{
    reveal_strlit("name");
    reveal_strlit("description");
    reveal_strlit("input_schema");
    assert("name"@.len() == 4 && "description"@.len() == 11 && "input_schema"@.len() == 12);
    assert(names(JsonView::Object(anthropic::tool_json(tool))) =~= set![
        "name"@,
        "description"@,
        "input_schema"@,
    ]);
}

proof fn lemma_body_names()
    ensures
        "model"@ != "max_tokens"@,
        "model"@ != "messages"@,
        "model"@ != "stream"@,
        "model"@ != "system"@,
        "model"@ != "temperature"@,
        "model"@ != "thinking"@,
        "model"@ != "tools"@,
        "max_tokens"@ != "messages"@,
        "max_tokens"@ != "stream"@,
        "max_tokens"@ != "system"@,
        "max_tokens"@ != "temperature"@,
        "max_tokens"@ != "thinking"@,
        "max_tokens"@ != "tools"@,
        "messages"@ != "stream"@,
        "messages"@ != "system"@,
        "messages"@ != "temperature"@,
        "messages"@ != "thinking"@,
        "messages"@ != "tools"@,
        "stream"@ != "system"@,
        "stream"@ != "temperature"@,
        "stream"@ != "thinking"@,
        "stream"@ != "tools"@,
        "system"@ != "temperature"@,
        "system"@ != "thinking"@,
        "system"@ != "tools"@,
        "temperature"@ != "thinking"@,
        "temperature"@ != "tools"@,
        "thinking"@ != "tools"@,
{
    reveal_strlit("model");
    reveal_strlit("max_tokens");
    reveal_strlit("messages");
    reveal_strlit("stream");
    reveal_strlit("system");
    reveal_strlit("temperature");
    reveal_strlit("thinking");
    reveal_strlit("tools");
    assert("model"@.len() == 5 && "tools"@.len() == 5);
    assert("stream"@.len() == 6 && "system"@.len() == 6);
    assert("messages"@.len() == 8 && "thinking"@.len() == 8);
    assert("max_tokens"@.len() == 10 && "temperature"@.len() == 11);
    assert("model"@[0] != "tools"@[0]);
    assert("messages"@[0] != "thinking"@[0]);
    assert("stream"@[1] != "system"@[1]);
}

/// A body asks for thinking exactly where a level that allows any is asked for,
/// with the tokens of that level, whatever the retention.
pub proof fn law_thinking_is_asked_by_level(
    model: ModelView,
    context: ContextView,
    options: OptionsView,
)
    ensures
        ({
            let body = anthropic::body_json(model, context, options);
            let thinking = field(body, "thinking"@);
            let tokens = match options.reasoning {
                Some(level) => tokens_of(level),
                None => None,
            };
            &&& names(body).contains("thinking"@) <==> tokens is Some
            &&& tokens matches Some(n) ==> {
                &&& thinking is Object
                &&& names(thinking) == set!["type"@, "budget_tokens"@]
                &&& field(thinking, "type"@) == string("enabled"@)
                &&& field(thinking, "budget_tokens"@) == whole(n)
            }
        }),
{
    lemma_body_names();
    reveal_strlit("type");
    reveal_strlit("budget_tokens");
    assert("type"@.len() != "budget_tokens"@.len());
    let thinking = field(anthropic::body_json(model, context, options), "thinking"@);
    if options.reasoning is Some && tokens_of(options.reasoning->0) is Some {
        assert(names(thinking) =~= set!["type"@, "budget_tokens"@]);
    }
}

/// Whether a block says a text and holds a mark.
pub open spec fn says_marked_text(block: JsonView, text: Seq<char>, mark: JsonView) -> bool {
    &&& block is Object
    &&& names(block) == set!["type"@, "text"@, "cache_control"@]
    &&& field(block, "type"@) == string("text"@)
    &&& field(block, "text"@) == string(text)
    &&& field(block, "cache_control"@) == mark
}

proof fn lemma_marked_text(text: Seq<char>, mark: JsonView)
    ensures
        says_marked_text(anthropic::with_mark(anthropic::text_block(text), mark), text, mark),
{
    lemma_names();
    reveal_strlit("cache_control");
    reveal_strlit("type");
    reveal_strlit("text");
    assert("cache_control"@.len() == 13 && "type"@.len() == 4 && "text"@.len() == 4);
    assert(names(anthropic::with_mark(anthropic::text_block(text), mark)) =~= set![
        "type"@,
        "text"@,
        "cache_control"@,
    ]);
}

/// With a retention the mark is on the last text of the last message that goes
/// out in the role of the user. Every other block, and every other message, says
/// what it says without one.
pub proof fn law_mark_is_on_the_last_user_text(
    model: ModelView,
    context: ContextView,
    options: OptionsView,
    i: int,
    k: int,
)
    requires
        options.cache_retention != CacheRetention::Off,
        0 <= i < context.messages.len(),
        context.messages[i] is User,
        forall|j: int|
            i < j < context.messages.len() ==> (#[trigger] context.messages[j]) is Assistant,
        0 <= k < context.messages[i]->User_content.len(),
        context.messages[i]->User_content[k] is Text,
        forall|j: int|
            k < j < context.messages[i]->User_content.len() ==> !(
            #[trigger] context.messages[i]->User_content[j] is Text),
    ensures
        ({
            let body = anthropic::body_json(model, context, options);
            let messages = field(body, "messages"@)->Array_0;
            let content = context.messages[i]->User_content;
            let mark = anthropic::cache_mark(options.cache_retention)->0;
            &&& field(body, "messages"@) is Array
            &&& messages.len() == context.messages.len()
            &&& forall|j: int|
                0 <= j < messages.len() && j != i ==> says_message(
                    #[trigger] messages[j],
                    context.messages[j],
                )
            &&& in_role(messages[i], "user"@)
            &&& blocks(messages[i]).len() == content.len()
            &&& forall|j: int|
                0 <= j < content.len() && j != k ==> says_piece(
                    #[trigger] blocks(messages[i])[j],
                    content[j],
                )
            &&& says_marked_text(blocks(messages[i])[k], content[k]->Text_text, mark)
        }),
{
    let retention = options.cache_retention;
    let mark = anthropic::cache_mark(retention)->0;
    assert(options == (OptionsView { cache_retention: retention, ..options }));
    anthropic::lemma_body_fields(model, context, options, retention);
    anthropic::law_last_user_text_is_marked(context.messages, mark, i, k);
    let body = anthropic::body_json(model, context, options);
    let messages = field(body, "messages"@)->Array_0;
    let plain = anthropic::messages_json(context.messages);
    let content = context.messages[i]->User_content;
    assert(messages == anthropic::marked_messages(plain, mark));
    assert forall|j: int| 0 <= j < messages.len() && j != i implies says_message(
        #[trigger] messages[j],
        context.messages[j],
    ) by {
        law_messages_are_said(context.messages[j]);
        assert(messages[j] == plain[j]);
    }
    lemma_names();
    assert(names(messages[i]) =~= set!["role"@, "content"@]);
    assert forall|j: int| 0 <= j < content.len() && j != k implies says_piece(
        #[trigger] blocks(messages[i])[j],
        content[j],
    ) by {
        law_pieces_are_said(content[j]);
        assert(blocks(messages[i])[j] == anthropic::block_json(content[j]));
    }
    lemma_marked_text(content[k]->Text_text, mark);
    assert(blocks(messages[i])[k] == anthropic::with_mark(
        anthropic::text_block(content[k]->Text_text),
        mark,
    ));
}

/// With a retention, too, no message is marked where the last message that goes
/// out in the role of the user holds no text of the user.
pub proof fn law_no_mark_without_a_user_text(
    model: ModelView,
    context: ContextView,
    options: OptionsView,
)
    requires
        forall|i: int|
            0 <= i < context.messages.len() && (forall|j: int|
                i < j < context.messages.len() ==> (#[trigger] context.messages[j]) is Assistant)
                ==> (#[trigger] context.messages[i] matches MessageView::User { content, .. }
                ==> forall|k: int| 0 <= k < content.len() ==> !(#[trigger] content[k] is Text)),
    ensures
        ({
            let body = anthropic::body_json(model, context, options);
            let messages = field(body, "messages"@)->Array_0;
            &&& field(body, "messages"@) is Array
            &&& messages.len() == context.messages.len()
            &&& forall|j: int|
                0 <= j < messages.len() ==> says_message(#[trigger] messages[j], context.messages[j])
        }),
{
    let retention = options.cache_retention;
    assert(options == (OptionsView { cache_retention: retention, ..options }));
    anthropic::lemma_body_fields(model, context, options, retention);
    if retention != CacheRetention::Off {
        let all = context.messages;
        assert forall|i: int|
            0 <= i < all.len() && (forall|j: int|
                i < j < all.len() ==> !anthropic::from_user(#[trigger] all[j])) implies (
        #[trigger] all[i] matches MessageView::User { content, .. } ==> forall|k: int|
            0 <= k < content.len() ==> !(#[trigger] content[k] is Text)) by {
            assert forall|j: int| i < j < all.len() implies (#[trigger] all[j]) is Assistant by {
                assert(!anthropic::from_user(all[j]));
            }
        }
        anthropic::law_no_user_text_no_mark(all, anthropic::cache_mark(retention)->0);
    }
    let messages = field(
        anthropic::body_json(model, context, options),
        "messages"@,
    )->Array_0;
    assert forall|j: int| 0 <= j < messages.len() implies says_message(
        #[trigger] messages[j],
        context.messages[j],
    ) by {
        law_messages_are_said(context.messages[j]);
    }
}

/// With a retention the system prompt is one marked text, the last tool is
/// marked, and every tool is described as it is.
pub proof fn law_prompt_and_last_tool_are_marked(
    model: ModelView,
    context: ContextView,
    options: OptionsView,
)
    requires
        options.cache_retention != CacheRetention::Off,
    ensures
        ({
            let body = anthropic::body_json(model, context, options);
            let system = field(body, "system"@);
            let tools = field(body, "tools"@)->Array_0;
            let mark = anthropic::cache_mark(options.cache_retention)->0;
            let n = context.tools.len();
            &&& names(body).contains("system"@) <==> context.system_prompt is Some
            &&& context.system_prompt matches Some(prompt) ==> system is Array
                && system->Array_0.len() == 1 && says_marked_text(system->Array_0[0], prompt, mark)
            &&& names(body).contains("tools"@) <==> n > 0
            &&& n > 0 ==> {
                &&& field(body, "tools"@) is Array
                &&& tools.len() == n
                &&& forall|i: int|
                    0 <= i < n - 1 ==> describes(#[trigger] tools[i], context.tools[i])
                &&& tools[n - 1] is Object
                &&& names(tools[n - 1]) == set![
                    "name"@,
                    "description"@,
                    "input_schema"@,
                    "cache_control"@,
                ]
                &&& field(tools[n - 1], "name"@) == string(context.tools[n - 1].name)
                &&& field(tools[n - 1], "description"@) == string(
                    context.tools[n - 1].description,
                )
                &&& field(tools[n - 1], "input_schema"@) == context.tools[n - 1].parameters
                &&& field(tools[n - 1], "cache_control"@) == mark
            }
        }),
{
    let retention = options.cache_retention;
    let mark = anthropic::cache_mark(retention)->0;
    assert(options == (OptionsView { cache_retention: retention, ..options }));
    anthropic::lemma_body_fields(model, context, options, retention);
    anthropic::lemma_tools(context.tools, mark);
    if let Some(prompt) = context.system_prompt {
        lemma_marked_text(prompt, mark);
    }
    let n = context.tools.len();
    if n > 0 {
        let tools = field(anthropic::body_json(model, context, options), "tools"@)->Array_0;
        assert forall|i: int| 0 <= i < n - 1 implies describes(
            #[trigger] tools[i],
            context.tools[i],
        ) by {
            lemma_tool(context.tools[i]);
        }
        lemma_tool(context.tools[n - 1]);
        reveal_strlit("cache_control");
        reveal_strlit("name");
        reveal_strlit("description");
        reveal_strlit("input_schema");
        assert("cache_control"@.len() == 13 && "name"@.len() == 4 && "description"@.len() == 11
            && "input_schema"@.len() == 12);
        assert(names(tools[n - 1]) =~= set![
            "name"@,
            "description"@,
            "input_schema"@,
            "cache_control"@,
        ]);
    }
}

/// The marks: none without retention, an ephemeral one for a short retention,
/// and one that lasts for an hour for a long one.
pub proof fn law_marks_by_retention()
    ensures
        anthropic::cache_mark(CacheRetention::Off) is None,
        anthropic::cache_mark(CacheRetention::Short) matches Some(mark) && mark is Object && names(
            mark,
        ) == set!["type"@] && field(mark, "type"@) == string("ephemeral"@),
        anthropic::cache_mark(CacheRetention::Long) matches Some(mark) && mark is Object && names(
            mark,
        ) == set!["type"@, "ttl"@] && field(mark, "type"@) == string("ephemeral"@) && field(
            mark,
            "ttl"@,
        ) == string("1h"@),
{
    reveal_strlit("type");
    reveal_strlit("ttl");
    assert("type"@.len() != "ttl"@.len());
    assert(names(anthropic::cache_mark(CacheRetention::Short)->0) =~= set!["type"@]);
    assert(names(anthropic::cache_mark(CacheRetention::Long)->0) =~= set!["type"@, "ttl"@]);
}

/// A request goes to the messages of the base, without slashes at its end, with
/// the key, the version and the types that the API takes, followed by the
/// headers of the options, and with the body of the conversation.
pub proof fn law_request_is_addressed(
    provider: AnthropicProvider,
    model: ModelView,
    context: ContextView,
    options: OptionsView,
    key: Seq<char>,
)
    ensures
        ({
            let sent = provider.request_view(model, context, options, key);
            let asked = match options.base_url {
                Some(base) => base,
                None => model.base_url,
            };
            &&& sent.url == crate::text::trim_end(asked, '/') + "/v1/messages"@
            &&& sent.bearer is None
            &&& sent.headers == seq![
                ("x-api-key"@, key),
                ("anthropic-version"@, "2023-06-01"@),
                ("accept"@, "text/event-stream"@),
                ("content-type"@, "application/json"@),
            ] + options.headers
            &&& sent.logged == headers::with_headers(Seq::empty(), sent.headers)
            &&& sent.body == anthropic::body_json(model, context, options)
        }),
        provider.label() == "anthropic"@,
        provider.variables() == seq!["ANTHROPIC_API_KEY"@],
{
    let own = anthropic::own_headers(key);
    headers::lemma_with_headers_add(Seq::empty(), own, options.headers);
}

} // verus!
