//! What a Google request says, read back field by field.

use vstd::prelude::*;

use crate::headers;
use crate::json::JsonView;
use crate::providers::google;
use crate::providers::google::GoogleProvider;
use crate::providers::reading::{field, names, string};
use crate::providers::Provider;
use crate::types;
use crate::types::{
    ContentView, ContextView, MessageView, ModelView, OptionsView, ToolResultView, ToolView,
};

verus! {

/// Whether a part says a text.
pub open spec fn says_text(part: JsonView, text: Seq<char>) -> bool {
    &&& part is Object
    &&& names(part) == set!["text"@]
    &&& field(part, "text"@) == string(text)
}

/// Whether a part is a call.
pub open spec fn says_call(part: JsonView, name: Seq<char>, arguments: JsonView) -> bool {
    let call = field(part, "functionCall"@);
    &&& part is Object
    &&& names(part) == set!["functionCall"@]
    &&& call is Object
    &&& names(call) == set!["name"@, "args"@]
    &&& field(call, "name"@) == string(name)
    &&& field(call, "args"@) == arguments
}

/// Whether a message goes out in a role with some parts.
pub open spec fn in_role(json: JsonView, role: Seq<char>, parts: Seq<JsonView>) -> bool {
    &&& json is Object
    &&& names(json) == set!["role"@, "parts"@]
    &&& field(json, "role"@) == string(role)
    &&& field(json, "parts"@) == JsonView::Array(parts)
}

/// Whether a part says a tool result.
pub open spec fn says_result(part: JsonView, result: ToolResultView) -> bool {
    let function = field(part, "functionResponse"@);
    let response = field(function, "response"@);
    &&& part is Object
    &&& names(part) == set!["functionResponse"@]
    &&& function is Object
    &&& names(function) == set!["name"@, "response"@]
    &&& field(function, "name"@) == string(result.tool_name)
    &&& response is Object
    &&& names(response) == set!["output"@, "is_error"@]
    &&& field(response, "output"@) == string(types::text_of(result.content))
    &&& field(response, "is_error"@) == JsonView::Bool(result.is_error)
}

/// Whether a message says a message of a conversation.
pub open spec fn says_message(json: JsonView, message: MessageView) -> bool {
    match message {
        MessageView::User { content, .. } => in_role(json, "user"@, google::text_parts(content)),
        MessageView::Assistant(answer) => in_role(
            json,
            "model"@,
            google::answer_parts(answer.content),
        ),
        MessageView::ToolResult(result) => {
            let parts = field(json, "parts"@)->Array_0;
            in_role(json, "user"@, parts) && parts.len() == 1 && says_result(parts[0], result)
        },
    }
}

proof fn lemma_names()
    ensures
        "role"@ != "parts"@,
        "name"@ != "args"@,
        "name"@ != "response"@,
        "output"@ != "is_error"@,
        "name"@ != "description"@,
        "name"@ != "parameters"@,
        "description"@ != "parameters"@,
{
    reveal_strlit("role");
    reveal_strlit("parts");
    reveal_strlit("name");
    reveal_strlit("args");
    reveal_strlit("response");
    reveal_strlit("output");
    reveal_strlit("is_error");
    reveal_strlit("description");
    reveal_strlit("parameters");
    assert("role"@.len() == 4 && "parts"@.len() == 5);
    assert("name"@.len() == 4 && "args"@.len() == 4 && "name"@[0] != "args"@[0]);
    assert("response"@.len() == 8 && "output"@.len() == 6 && "is_error"@.len() == 8);
    assert("description"@.len() == 11 && "parameters"@.len() == 10);
}

proof fn lemma_only(name: Seq<char>, value: JsonView)
    ensures
        google::only(name, value) is Object,
        names(google::only(name, value)) == set![name],
        field(google::only(name, value), name) == value,
{
    assert(names(google::only(name, value)) =~= set![name]);
}

/// Every message of a conversation becomes a message that says it: who speaks,
/// and its parts. A tool result says which tool answered, what it gave back and
/// whether that is an error.
pub proof fn law_messages_are_said(message: MessageView)
    ensures
        says_message(google::message_json(message), message),
{
    lemma_names();
    let json = google::message_json(message);
    assert(names(json) =~= set!["role"@, "parts"@]);
    if let MessageView::ToolResult(result) = message {
        let part = field(json, "parts"@)->Array_0[0];
        let function = field(part, "functionResponse"@);
        lemma_only("functionResponse"@, part->Object_0["functionResponse"@]);
        assert(names(part) =~= set!["functionResponse"@]);
        assert(names(function) =~= set!["name"@, "response"@]);
        assert(names(field(function, "response"@)) =~= set!["output"@, "is_error"@]);
    }
}

/// The parts of a message of the user are its texts, piece by piece.
pub proof fn law_texts_are_sent_piece_by_piece(
    a: Seq<ContentView>,
    b: Seq<ContentView>,
    piece: ContentView,
)
    ensures
        google::text_parts(a + b) == google::text_parts(a) + google::text_parts(b),
        match piece {
            ContentView::Text { text } => google::text_parts(seq![piece]).len() == 1 && says_text(
                google::text_parts(seq![piece])[0],
                text,
            ),
            _ => google::text_parts(seq![piece]).len() == 0,
        },
    decreases b.len(),
{
    assert(seq![piece].drop_last() =~= Seq::empty());
    assert(google::text_parts(Seq::empty()).len() == 0);
    if let ContentView::Text { text } = piece {
        lemma_only("text"@, string(text));
    }
    if b.len() == 0 {
        assert(a + b =~= a);
        assert(google::text_parts(a) + google::text_parts(b) =~= google::text_parts(a));
    } else {
        law_texts_are_sent_piece_by_piece(a, b.drop_last(), piece);
        assert((a + b).drop_last() =~= a + b.drop_last());
        assert(google::text_parts(a + b) =~= google::text_parts(a) + google::text_parts(b));
    }
}

/// The parts of an answer are its texts and its calls, piece by piece.
pub proof fn law_answers_are_sent_piece_by_piece(
    a: Seq<ContentView>,
    b: Seq<ContentView>,
    piece: ContentView,
)
    ensures
        google::answer_parts(a + b) == google::answer_parts(a) + google::answer_parts(b),
        match piece {
            ContentView::Text { text } => google::answer_parts(seq![piece]).len() == 1 && says_text(
                google::answer_parts(seq![piece])[0],
                text,
            ),
            ContentView::ToolCall { id, name, arguments } => google::answer_parts(
                seq![piece],
            ).len() == 1 && says_call(google::answer_parts(seq![piece])[0], name, arguments),
            _ => google::answer_parts(seq![piece]).len() == 0,
        },
    decreases b.len(),
{
    lemma_names();
    assert(seq![piece].drop_last() =~= Seq::empty());
    assert(google::answer_parts(Seq::empty()).len() == 0);
    match piece {
        ContentView::Text { text } => {
            lemma_only("text"@, string(text));
        },
        ContentView::ToolCall { id, name, arguments } => {
            let part = google::answer_parts(seq![piece])[0];
            assert(names(part) =~= set!["functionCall"@]);
            assert(names(field(part, "functionCall"@)) =~= set!["name"@, "args"@]);
        },
        _ => {},
    }
    if b.len() == 0 {
        assert(a + b =~= a);
        assert(google::answer_parts(a) + google::answer_parts(b) =~= google::answer_parts(a));
    } else {
        law_answers_are_sent_piece_by_piece(a, b.drop_last(), piece);
        assert((a + b).drop_last() =~= a + b.drop_last());
        assert(google::answer_parts(a + b) =~= google::answer_parts(a) + google::answer_parts(b));
    }
}

/// Whether a tool is described.
pub open spec fn describes(json: JsonView, tool: ToolView) -> bool {
    &&& json is Object
    &&& names(json) == set!["name"@, "description"@, "parameters"@]
    &&& field(json, "name"@) == string(tool.name)
    &&& field(json, "description"@) == string(tool.description)
    &&& field(json, "parameters"@) == tool.parameters
}

/// A body says what it is asked to say and nothing else: every message of the
/// conversation in its place, and, where there are any, the system prompt, the
/// temperature and every tool in its place.
pub proof fn law_body_says_what_is_asked(context: ContextView, options: OptionsView)
    ensures
        ({
            let body = google::body_json(context, options);
            let contents = field(body, "contents"@)->Array_0;
            let system = field(body, "systemInstruction"@);
            let parts = field(system, "parts"@)->Array_0;
            let config = field(body, "generationConfig"@);
            let tools = field(body, "tools"@)->Array_0;
            let declared = field(tools[0], "functionDeclarations"@)->Array_0;
            &&& body is Object
            &&& forall|name: Seq<char>| #[trigger]
                names(body).contains(name) ==> name == "contents"@ || name == "systemInstruction"@
                    || name == "generationConfig"@ || name == "tools"@
            &&& names(body).contains("contents"@)
            &&& field(body, "contents"@) is Array
            &&& contents.len() == context.messages.len()
            &&& forall|i: int|
                0 <= i < contents.len() ==> says_message(#[trigger] contents[i], context.messages[i])
            &&& names(body).contains("systemInstruction"@) <==> context.system_prompt is Some
            &&& context.system_prompt matches Some(prompt) ==> in_role(system, "system"@, parts)
                && parts.len() == 1 && says_text(parts[0], prompt)
            &&& names(body).contains("generationConfig"@) <==> options.temperature is Some
            &&& options.temperature matches Some(temperature) ==> config is Object && names(config)
                == set!["temperature"@] && field(config, "temperature"@) == temperature
            &&& names(body).contains("tools"@) <==> context.tools.len() > 0
            &&& context.tools.len() > 0 ==> {
                &&& field(body, "tools"@) is Array
                &&& tools.len() == 1
                &&& tools[0] is Object
                &&& names(tools[0]) == set!["functionDeclarations"@]
                &&& field(tools[0], "functionDeclarations"@) is Array
                &&& declared.len() == context.tools.len()
                &&& forall|i: int|
                    0 <= i < declared.len() ==> describes(#[trigger] declared[i], context.tools[i])
            }
        }),
{
    reveal_strlit("contents");
    reveal_strlit("systemInstruction");
    reveal_strlit("generationConfig");
    reveal_strlit("tools");
    assert("contents"@.len() == 8 && "systemInstruction"@.len() == 17 && "generationConfig"@.len()
        == 16 && "tools"@.len() == 5);
    lemma_names();
    let body = google::body_json(context, options);
    let contents = field(body, "contents"@)->Array_0;
    assert forall|i: int| 0 <= i < contents.len() implies says_message(
        #[trigger] contents[i],
        context.messages[i],
    ) by {
        law_messages_are_said(context.messages[i]);
    }
    if let Some(prompt) = context.system_prompt {
        let system = field(body, "systemInstruction"@);
        lemma_only("text"@, string(prompt));
        assert(names(system) =~= set!["role"@, "parts"@]);
    }
    if let Some(temperature) = options.temperature {
        lemma_only("temperature"@, temperature);
    }
    if context.tools.len() > 0 {
        let tools = field(body, "tools"@)->Array_0;
        let declared = field(tools[0], "functionDeclarations"@)->Array_0;
        assert(names(tools[0]) =~= set!["functionDeclarations"@]);
        assert forall|i: int| 0 <= i < declared.len() implies describes(
            #[trigger] declared[i],
            context.tools[i],
        ) by {
            assert(names(declared[i]) =~= set!["name"@, "description"@, "parameters"@]);
        }
    }
}

/// A request goes to the stream of the model under the base, without slashes at
/// its end, with the key in its query, and with the types that the API takes,
/// followed by the headers of the options, and with the body of the
/// conversation.
pub proof fn law_request_is_addressed(
    provider: GoogleProvider,
    model: ModelView,
    context: ContextView,
    options: OptionsView,
    key: Seq<char>,
)
    ensures
        ({
            let sent = provider.request_view(model, context, options, key);
            let asked = match options.base_url {
                Some(base) => base,
                None => model.base_url,
            };
            &&& sent.url == crate::text::trim_end(asked, '/') + "/v1beta/models/"@ + model.id
                + ":streamGenerateContent"@ + "?alt=sse&key="@ + key
            &&& sent.bearer is None
            &&& sent.headers == seq![
                ("accept"@, "text/event-stream"@),
                ("content-type"@, "application/json"@),
            ] + options.headers
            &&& sent.logged == headers::with_headers(Seq::empty(), sent.headers)
            &&& sent.body == google::body_json(context, options)
        }),
        provider.label() == "google"@,
        provider.variables() == seq!["GOOGLE_API_KEY"@, "GEMINI_API_KEY"@],
        provider.idle_limit() is None,
{
    headers::lemma_with_headers_add(Seq::empty(), google::own_headers(), options.headers);
}

} // verus!
