//! Text that shows a developer what a model is asked in a turn.

use vstd::prelude::*;

use crate::agent::types::{AgentConfig, ConfigView};
use crate::text;
use crate::types::{Context, ContextView, ModelView, OptionsView};

verus! {

/// The text that shows what a model is asked in a turn, given the texts of the
/// messages and of the tools.
pub open spec fn context_text(
    turn: u32,
    config: ConfigView,
    context: ContextView,
    messages: Seq<char>,
    tools: Seq<char>,
) -> Seq<char> {
    let system_prompt = match context.system_prompt {
        Some(prompt) => prompt,
        None => ""@,
    };
    "[pi-agent llm context] turn="@ + text::decimal(turn as nat) + "\nprovider: "@
        + config.model.provider + "\napi: "@ + config.model.api + "\nmodel: "@ + config.model.id
        + "\nsystem_prompt:\n"@ + system_prompt + "\nmessages:\n"@ + messages + "\ntools:\n"@
        + tools
}

/// The text that shows what a model is asked in a turn, given the texts of the
/// messages and of the tools.
pub fn format_llm_context(
    turn: u32,
    config: &AgentConfig,
    context: &Context,
    messages: &str,
    tools: &str,
) -> (out: String)
    ensures
        out@ == context_text(
            turn,
            config.deep_view(),
            context.deep_view(),
            messages@,
            tools@,
        ),
{
    let system_prompt = match &context.system_prompt {
        Some(prompt) => prompt.as_str(),
        None => "",
    };
    let mut out = "[pi-agent llm context] turn=".to_owned();
    out.append(text::decimal_text(turn as u128).as_str());
    out.append("\nprovider: ");
    out.append(config.model.provider.as_str());
    out.append("\napi: ");
    out.append(config.model.api.as_str());
    out.append("\nmodel: ");
    out.append(config.model.id.as_str());
    out.append("\nsystem_prompt:\n");
    out.append(system_prompt);
    out.append("\nmessages:\n");
    out.append(messages);
    out.append("\ntools:\n");
    out.append(tools);
    out
}

/// What to log of a turn: its text where the setting is `2`, and nothing
/// otherwise.
pub fn log_llm_context(
    setting: Option<&str>,
    turn: u32,
    config: &AgentConfig,
    context: &Context,
    messages: &str,
    tools: &str,
) -> (line: Option<String>)
    ensures
        line.deep_view() == (if setting.deep_view() == Some("2"@) {
            Some(
                context_text(
                    turn,
                    config.deep_view(),
                    context.deep_view(),
                    messages@,
                    tools@,
                ),
            )
        } else {
            None
        }),
{
    match setting {
        Some(setting) => if text::same(setting, "2") {
            Some(format_llm_context(turn, config, context, messages, tools))
        } else {
            None
        },
        None => None,
    }
}

/// What is shown of a turn tells nothing of the options of the requests, the
/// key and the headers among them, nor of where the model is served.
pub proof fn law_wire_details_are_not_shown(
    turn: u32,
    config: ConfigView,
    context: ContextView,
    messages: Seq<char>,
    tools: Seq<char>,
    stream_options: OptionsView,
    base_url: Seq<char>,
)
    ensures
        context_text(turn, config, context, messages, tools) == context_text(
            turn,
            ConfigView {
                stream_options,
                model: ModelView { base_url, ..config.model },
                ..config
            },
            context,
            messages,
            tools,
        ),
{
}

/// What is shown of a turn names the turn, the provider, the API and the model,
/// and holds the system prompt, the messages and the tools, each on its own and
/// whole.
pub proof fn law_turn_is_shown_whole(
    turn: u32,
    config: ConfigView,
    context: ContextView,
    messages: Seq<char>,
    tools: Seq<char>,
)
    ensures
        ({
            let shown = context_text(turn, config, context, messages, tools);
            let prompt = match context.system_prompt {
                Some(prompt) => prompt,
                None => Seq::empty(),
            };
            let head = "[pi-agent llm context] turn="@ + text::decimal(turn as nat)
                + "\nprovider: "@ + config.model.provider + "\napi: "@ + config.model.api
                + "\nmodel: "@ + config.model.id;
            let tail = "\nsystem_prompt:\n"@ + prompt + "\nmessages:\n"@ + messages + "\ntools:\n"@
                + tools;
            shown == head + tail
        }),
{
    reveal_strlit("");
    assert(""@ =~= Seq::<char>::empty());
    let prompt = match context.system_prompt {
        Some(prompt) => prompt,
        None => Seq::empty(),
    };
    let head = "[pi-agent llm context] turn="@ + text::decimal(turn as nat) + "\nprovider: "@
        + config.model.provider + "\napi: "@ + config.model.api + "\nmodel: "@ + config.model.id;
    let tail = "\nsystem_prompt:\n"@ + prompt + "\nmessages:\n"@ + messages + "\ntools:\n"@
        + tools;
    assert(context_text(turn, config, context, messages, tools) =~= head + tail);
}

} // verus!
