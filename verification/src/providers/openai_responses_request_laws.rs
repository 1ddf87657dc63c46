//! What a Responses request says, read back field by field.

use vstd::prelude::*;

use crate::headers;
use crate::json;
use crate::json::JsonView;
use crate::providers::openai_responses;
use crate::providers::openai_responses::OpenAiResponsesProvider;
use crate::providers::reading::{field, has_exactly, names, string, whole};
use crate::providers::Provider;
use crate::types;
use crate::types::{
    AssistantView, ContentView, ContextView, MessageView, ModelView, OptionsView, ThinkingLevel,
    ToolResultView, ToolView,
};

verus! {

/// Whether an item is a message of a role that says one text.
pub open spec fn says_text(item: JsonView, role: Seq<char>, kind: Seq<char>, text: Seq<char>) -> bool {
    let block = field(item, "content"@)->Array_0[0];
    &&& item is Object
    &&& names(item) == set!["type"@, "role"@, "content"@]
    &&& field(item, "type"@) == string("message"@)
    &&& field(item, "role"@) == string(role)
    &&& field(item, "content"@) is Array
    &&& field(item, "content"@)->Array_0.len() == 1
    &&& block is Object
    &&& names(block) == set!["type"@, "text"@]
    &&& field(block, "type"@) == string(kind)
    &&& field(block, "text"@) == string(text)
}

/// Whether an item is a call, with its arguments as text.
pub open spec fn says_call(
    item: JsonView,
    id: Seq<char>,
    name: Seq<char>,
    arguments: JsonView,
) -> bool {
    &&& item is Object
    &&& names(item) == set!["type"@, "call_id"@, "name"@, "arguments"@]
    &&& field(item, "type"@) == string("function_call"@)
    &&& field(item, "call_id"@) == string(id)
    &&& field(item, "name"@) == string(name)
    &&& field(item, "arguments"@) == string(json::compact_text(arguments))
}

proof fn lemma_names()
    ensures
        "type"@ != "role"@,
        "type"@ != "content"@,
        "role"@ != "content"@,
        "type"@ != "text"@,
        "type"@ != "call_id"@,
        "type"@ != "name"@,
        "type"@ != "arguments"@,
        "call_id"@ != "name"@,
        "call_id"@ != "arguments"@,
        "name"@ != "arguments"@,
        "type"@ != "output"@,
        "call_id"@ != "output"@,
        "type"@ != "description"@,
        "type"@ != "parameters"@,
        "name"@ != "description"@,
        "name"@ != "parameters"@,
        "description"@ != "parameters"@,
{
    reveal_strlit("type");
    reveal_strlit("role");
    reveal_strlit("content");
    reveal_strlit("text");
    reveal_strlit("call_id");
    reveal_strlit("name");
    reveal_strlit("arguments");
    reveal_strlit("output");
    reveal_strlit("description");
    reveal_strlit("parameters");
    assert("type"@.len() == 4 && "role"@.len() == 4 && "text"@.len() == 4 && "name"@.len() == 4);
    assert("type"@[0] != "role"@[0]);
    assert("type"@[1] != "text"@[1]);
    assert("type"@[0] != "name"@[0]);
    assert("output"@.len() == 6 && "content"@.len() == 7 && "call_id"@.len() == 7);
    assert("arguments"@.len() == 9 && "parameters"@.len() == 10 && "description"@.len() == 11);
}

/// The items of a conversation are those of its messages, message by message.
pub proof fn law_conversation_is_sent_message_by_message(
    first: Seq<MessageView>,
    second: Seq<MessageView>,
    message: MessageView,
)
    ensures
        openai_responses::input_items(first + second) == openai_responses::input_items(first)
            + openai_responses::input_items(second),
        openai_responses::input_items(seq![message]) == openai_responses::message_items(message),
    decreases second.len(),
{
    assert(seq![message].drop_last() =~= Seq::empty());
    assert(openai_responses::input_items(Seq::empty()) + openai_responses::message_items(message)
        =~= openai_responses::message_items(message));
    if second.len() == 0 {
        assert(first + second =~= first);
        assert(openai_responses::input_items(first) + openai_responses::input_items(second)
            =~= openai_responses::input_items(first));
    } else {
        law_conversation_is_sent_message_by_message(first, second.drop_last(), message);
        assert((first + second).drop_last() =~= first + second.drop_last());
        assert(openai_responses::input_items(first + second) =~= openai_responses::input_items(
            first,
        ) + openai_responses::input_items(second));
    }
}

/// A message of the user becomes one item with all its text.
pub proof fn law_user_message_is_said(content: Seq<ContentView>, timestamp: u64)
    ensures
        ({
            let items = openai_responses::message_items(MessageView::User { content, timestamp });
            &&& items.len() == 1
            &&& says_text(items[0], "user"@, "input_text"@, types::text_of(content))
        }),
{
    lemma_item("user"@, "input_text"@, types::text_of(content));
}

proof fn lemma_item(role: Seq<char>, kind: Seq<char>, text: Seq<char>)
    ensures
        says_text(openai_responses::message_item(role, kind, text), role, kind, text),
{
    lemma_names();
    let item = openai_responses::message_item(role, kind, text);
    assert(names(item) =~= set!["type"@, "role"@, "content"@]);
    assert(names(field(item, "content"@)->Array_0[0]) =~= set!["type"@, "text"@]);
}

/// An answer becomes an item with all its text, where it has any, followed by
/// one item for each of its calls.
pub proof fn law_answer_is_said(answer: AssistantView)
    ensures
        ({
            let items = openai_responses::message_items(MessageView::Assistant(answer));
            let calls = openai_responses::call_items(answer.content);
            let text = types::text_of(answer.content);
            &&& text.len() == 0 ==> items == calls
            &&& text.len() > 0 ==> items.len() == calls.len() + 1 && items.skip(1) == calls
                && says_text(items[0], "assistant"@, "output_text"@, text)
        }),
{
    let items = openai_responses::message_items(MessageView::Assistant(answer));
    let calls = openai_responses::call_items(answer.content);
    let text = types::text_of(answer.content);
    lemma_item("assistant"@, "output_text"@, text);
    if text.len() == 0 {
        assert(items =~= calls);
    } else {
        assert(items.skip(1) =~= calls);
    }
}

/// The calls of an answer are sent piece by piece: each with its id, its name
/// and its arguments, and nothing for any other piece.
pub proof fn law_calls_are_sent_piece_by_piece(
    a: Seq<ContentView>,
    b: Seq<ContentView>,
    piece: ContentView,
)
    ensures
        openai_responses::call_items(a + b) == openai_responses::call_items(a)
            + openai_responses::call_items(b),
        match piece {
            ContentView::ToolCall { id, name, arguments } => openai_responses::call_items(
                seq![piece],
            ).len() == 1 && says_call(
                openai_responses::call_items(seq![piece])[0],
                id,
                name,
                arguments,
            ),
            _ => openai_responses::call_items(seq![piece]).len() == 0,
        },
    decreases b.len(),
{
    lemma_names();
    assert(seq![piece].drop_last() =~= Seq::empty());
    assert(openai_responses::call_items(Seq::empty()).len() == 0);
    if let ContentView::ToolCall { id, name, arguments } = piece {
        let item = openai_responses::call_items(seq![piece])[0];
        assert(names(item) =~= set!["type"@, "call_id"@, "name"@, "arguments"@]);
    }
    if b.len() == 0 {
        assert(a + b =~= a);
        assert(openai_responses::call_items(a) + openai_responses::call_items(b)
            =~= openai_responses::call_items(a));
    } else {
        law_calls_are_sent_piece_by_piece(a, b.drop_last(), piece);
        assert((a + b).drop_last() =~= a + b.drop_last());
        assert(openai_responses::call_items(a + b) =~= openai_responses::call_items(a)
            + openai_responses::call_items(b));
    }
}

/// A tool result becomes one item with the id of its call and all its text.
pub proof fn law_result_is_said(result: ToolResultView)
    ensures
        ({
            let items = openai_responses::message_items(MessageView::ToolResult(result));
            &&& items.len() == 1
            &&& items[0] is Object
            &&& names(items[0]) == set!["type"@, "call_id"@, "output"@]
            &&& field(items[0], "type"@) == string("function_call_output"@)
            &&& field(items[0], "call_id"@) == string(result.tool_call_id)
            &&& field(items[0], "output"@) == string(types::text_of(result.content))
        }),
{
    lemma_names();
    let items = openai_responses::message_items(MessageView::ToolResult(result));
    assert(names(items[0]) =~= set!["type"@, "call_id"@, "output"@]);
}

/// Whether a tool is described.
pub open spec fn describes(json: JsonView, tool: ToolView) -> bool {
    &&& json is Object
    &&& names(json) == set!["type"@, "name"@, "description"@, "parameters"@]
    &&& field(json, "type"@) == string("function"@)
    &&& field(json, "name"@) == string(tool.name)
    &&& field(json, "description"@) == string(tool.description)
    &&& field(json, "parameters"@) == tool.parameters
}

/// The effort that a level of thinking asks for.
pub open spec fn effort_of(level: ThinkingLevel) -> Option<Seq<char>> {
    match level {
        ThinkingLevel::Off => None,
        ThinkingLevel::Minimal => Some("low"@),
        ThinkingLevel::Low => Some("low"@),
        ThinkingLevel::Medium => Some("medium"@),
        ThinkingLevel::High => Some("high"@),
        ThinkingLevel::Xhigh => Some("high"@),
    }
}

proof fn lemma_body_names()
    ensures
        "model"@ != "input"@,
        "model"@ != "stream"@,
        "model"@ != "instructions"@,
        "model"@ != "max_output_tokens"@,
        "model"@ != "temperature"@,
        "model"@ != "reasoning"@,
        "model"@ != "tools"@,
        "input"@ != "stream"@,
        "input"@ != "instructions"@,
        "input"@ != "max_output_tokens"@,
        "input"@ != "temperature"@,
        "input"@ != "reasoning"@,
        "input"@ != "tools"@,
        "stream"@ != "instructions"@,
        "stream"@ != "max_output_tokens"@,
        "stream"@ != "temperature"@,
        "stream"@ != "reasoning"@,
        "stream"@ != "tools"@,
        "instructions"@ != "max_output_tokens"@,
        "instructions"@ != "temperature"@,
        "instructions"@ != "reasoning"@,
        "instructions"@ != "tools"@,
        "max_output_tokens"@ != "temperature"@,
        "max_output_tokens"@ != "reasoning"@,
        "max_output_tokens"@ != "tools"@,
        "temperature"@ != "reasoning"@,
        "temperature"@ != "tools"@,
        "reasoning"@ != "tools"@,
{
    reveal_strlit("model");
    reveal_strlit("input");
    reveal_strlit("stream");
    reveal_strlit("instructions");
    reveal_strlit("max_output_tokens");
    reveal_strlit("temperature");
    reveal_strlit("reasoning");
    reveal_strlit("tools");
    assert("model"@.len() == 5 && "input"@.len() == 5 && "tools"@.len() == 5);
    assert("model"@[0] != "input"@[0]);
    assert("model"@[0] != "tools"@[0]);
    assert("input"@[0] != "tools"@[0]);
    assert("stream"@.len() == 6 && "instructions"@.len() == 12 && "max_output_tokens"@.len() == 17);
    assert("temperature"@.len() == 11 && "reasoning"@.len() == 9);
}

/// A body says what it is asked to say and nothing else: the model, the items of
/// the conversation, that the answer is to be streamed, and, where there are
/// any, the system prompt, the limit, the temperature, the effort of the level
/// of thinking and every tool in its place.
pub proof fn law_body_says_what_is_asked(
    model: ModelView,
    context: ContextView,
    options: OptionsView,
)
    ensures
        ({
            let body = openai_responses::body_json(model, context, options);
            let reasoning = field(body, "reasoning"@);
            let effort = match options.reasoning {
                Some(level) => effort_of(level),
                None => None,
            };
            let tools = field(body, "tools"@)->Array_0;
            &&& body is Object
            &&& forall|name: Seq<char>| #[trigger]
                names(body).contains(name) ==> name == "model"@ || name == "input"@ || name
                    == "stream"@ || name == "instructions"@ || name == "max_output_tokens"@ || name
                    == "temperature"@ || name == "reasoning"@ || name == "tools"@
            &&& has_exactly(body, "model"@, Some(string(model.id)))
            &&& has_exactly(
                body,
                "input"@,
                Some(JsonView::Array(openai_responses::input_items(context.messages))),
            )
            &&& has_exactly(body, "stream"@, Some(JsonView::Bool(true)))
            &&& context.system_prompt matches Some(prompt) ==> has_exactly(
                body,
                "instructions"@,
                Some(string(prompt)),
            )
            &&& context.system_prompt is None ==> has_exactly(body, "instructions"@, None)
            &&& options.max_tokens matches Some(limit) ==> has_exactly(
                body,
                "max_output_tokens"@,
                Some(whole(limit as int)),
            )
            &&& options.max_tokens is None ==> has_exactly(body, "max_output_tokens"@, None)
            &&& has_exactly(body, "temperature"@, options.temperature)
            &&& names(body).contains("reasoning"@) <==> effort is Some
            &&& effort matches Some(effort) ==> reasoning is Object && names(reasoning) == set![
                "effort"@,
            ] && field(reasoning, "effort"@) == string(effort)
            &&& names(body).contains("tools"@) <==> context.tools.len() > 0
            &&& context.tools.len() > 0 ==> field(body, "tools"@) is Array && tools.len()
                == context.tools.len() && forall|i: int|
                0 <= i < tools.len() ==> describes(#[trigger] tools[i], context.tools[i])
        }),
{
    let body = openai_responses::body_json(model, context, options);
    lemma_body_names();
    lemma_names();
    if context.tools.len() > 0 {
        let tools = field(body, "tools"@)->Array_0;
        assert forall|i: int| 0 <= i < tools.len() implies describes(
            #[trigger] tools[i],
            context.tools[i],
        ) by {
            assert(names(tools[i]) =~= set!["type"@, "name"@, "description"@, "parameters"@]);
        }
    }
    if options.reasoning is Some && effort_of(options.reasoning->0) is Some {
        assert(names(field(body, "reasoning"@)) =~= set!["effort"@]);
    }
}

/// A request goes to the responses of the base, without slashes at its end, with
/// the key as its bearer token and the types that the API takes, followed by the
/// headers of the options, and with the body of the conversation.
pub proof fn law_request_is_addressed(
    provider: OpenAiResponsesProvider,
    model: ModelView,
    context: ContextView,
    options: OptionsView,
    key: Seq<char>,
)
    ensures
        ({
            let sent = provider.request_view(model, context, options, key);
            let asked = match options.base_url {
                Some(base) => base,
                None => model.base_url,
            };
            &&& sent.url == crate::text::trim_end(asked, '/') + "/responses"@
            &&& sent.bearer == Some(key)
            &&& sent.headers == seq![
                ("accept"@, "text/event-stream"@),
                ("content-type"@, "application/json"@),
            ] + options.headers
            &&& sent.logged == headers::with_headers(
                Seq::empty(),
                seq![("authorization"@, "Bearer "@ + key)] + sent.headers,
            )
            &&& sent.body == openai_responses::body_json(model, context, options)
        }),
        provider.label() == "openai"@,
        provider.variables() == seq!["OPENAI_API_KEY"@],
        provider.idle_limit() is None,
{
    let own = seq![("authorization"@, "Bearer "@ + key)] + openai_responses::own_headers();
    headers::lemma_with_headers_add(Seq::empty(), own, options.headers);
    assert(own + options.headers =~= seq![("authorization"@, "Bearer "@ + key)] + (
    openai_responses::own_headers() + options.headers));
}

} // verus!
