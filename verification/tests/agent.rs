use pi_agent::agent::agent_loop::{run_agent, run_agent_with_history, AgentLoop};
use pi_agent::agent::debug::{format_llm_context, log_llm_context};
use pi_agent::agent::types::{
    Action, AgentConfig, AgentError, AgentEvent, AgentRun, Input, PermissionDecision,
};
use pi_agent::headers::Headers;
use pi_agent::json;
use pi_agent::json::Json;
use pi_agent::types::{
    AssistantMessage, AssistantMessageEvent, CacheRetention, Content, Context, Message, Model,
    StopReason, StreamError, StreamOptions, ThinkingLevel, Tool, ToolResultMessage, Usage,
};

fn model() -> Model {
    Model {
        id: "gpt-5.5".to_string(),
        provider: "vokotoken".to_string(),
        api: "openai-completions".to_string(),
        base_url: "https://vokotoken.cc/v1".to_string(),
        max_tokens: 8_192,
    }
}

fn stream_options() -> StreamOptions {
    StreamOptions {
        api_key: Some("secret-key".to_string()),
        base_url: None,
        headers: Headers::new(),
        temperature: None,
        max_tokens: Some(1024),
        reasoning: None,
        cache_retention: CacheRetention::Off,
    }
}

fn tool(name: &str, description: &str) -> Tool {
    Tool {
        name: name.to_string(),
        description: description.to_string(),
        parameters: Json::Object(Vec::new()),
    }
}

/// The next call begins, and its tool says whether it has to be permitted.
fn check(run: &mut AgentLoop, tool: usize, required: bool, now: u64) -> (Vec<AgentEvent>, Action) {
    assert_eq!(take(run, Input::Continue, now), (vec![], Action::CheckTool { tool }));
    take(run, Input::Requirement(required), now)
}

fn config(tools: Vec<Tool>, max_turns: u32) -> AgentConfig {
    AgentConfig {
        model: model(),
        system_prompt: "system prompt".to_string(),
        tools,
        stream_options: stream_options(),
        thinking_level: ThinkingLevel::Off,
        max_turns,
    }
}

fn user(text: &str) -> Message {
    Message::User {
        content: vec![Content::text(text)],
        timestamp: 1,
    }
}

fn answer(content: Vec<Content>, stop_reason: StopReason, error: Option<&str>) -> AssistantMessage {
    AssistantMessage {
        content,
        api: "openai-completions".to_string(),
        provider: "vokotoken".to_string(),
        model: "gpt-5.5".to_string(),
        usage: Usage::default(),
        stop_reason,
        error_message: error.map(|e| e.to_string()),
        timestamp: 2,
    }
}

fn call(id: &str, name: &str) -> Content {
    Content::ToolCall {
        id: id.to_string(),
        name: name.to_string(),
        arguments: Json::Integer(id.len() as u64),
    }
}

fn done(message: &AssistantMessage) -> Input {
    Input::Event(AssistantMessageEvent::Done {
        reason: message.stop_reason,
        message: message.clone(),
    })
}

fn result(id: &str, name: &str, content: Vec<Content>, is_error: bool, timestamp: u64) -> Message {
    Message::ToolResult(ToolResultMessage {
        tool_call_id: id.to_string(),
        tool_name: name.to_string(),
        content,
        is_error,
        timestamp,
    })
}

fn error_result(id: &str, name: &str, text: &str, timestamp: u64) -> Message {
    result(id, name, vec![Content::text(text)], true, timestamp)
}

fn take(run: &mut AgentLoop, input: Input, now: u64) -> (Vec<AgentEvent>, Action) {
    assert!(run.accepts(&input));
    let moment = run.step(input, now);
    (moment.events, moment.action)
}

#[test]
fn formats_agent_context_without_provider_wire_details_or_credentials() {
    let config = config(Vec::new(), 8);

    let parameters = json::parse(
        r#"{"type": "object", "properties": {"url": {"type": "string"}}}"#,
    )
    .unwrap();
    let context = Context {
        system_prompt: Some("system prompt".to_string()),
        messages: vec![
            user("hello"),
            result("call_1", "web_fetch", vec![Content::text("tool output")], false, 1),
        ],
        tools: vec![Tool {
            name: "web_fetch".to_string(),
            description: "fetch a URL".to_string(),
            parameters,
        }],
    };
    let messages = json::parse(
        r#"[
            {"role": "user", "content": [{"type": "text", "text": "hello"}], "timestamp": 1},
            {"role": "toolResult", "tool_call_id": "call_1", "tool_name": "web_fetch",
             "content": [{"type": "text", "text": "tool output"}], "is_error": false, "timestamp": 1}
        ]"#,
    )
    .unwrap()
    .to_pretty();
    let tools = json::parse(
        r#"[{"name": "web_fetch", "description": "fetch a URL",
             "parameters": {"type": "object", "properties": {"url": {"type": "string"}}}}]"#,
    )
    .unwrap()
    .to_pretty();

    let output = format_llm_context(2, &config, &context, &messages, &tools);

    assert!(output.starts_with("[pi-agent llm context] turn=2"));
    assert!(output.contains("provider: vokotoken"));
    assert!(output.contains("api: openai-completions"));
    assert!(output.contains("model: gpt-5.5"));
    assert!(output.contains("system prompt"));
    assert!(output.contains("\"role\": \"user\""));
    assert!(output.contains("\"role\": \"toolResult\""));
    assert!(output.contains("\"name\": \"web_fetch\""));
    assert!(output.contains("\"tool_name\": \"web_fetch\""));
    assert!(!output.contains("secret-key"));
    assert!(!output.contains("api_key"));
    assert!(!output.contains("https://vokotoken.cc/v1"));
    assert!(!output.contains("Authorization"));
    assert!(!output.contains("headers:"));
    assert!(!output.contains("body:"));
}

#[test]
fn context_is_shown_line_by_line() {
    let config = config(Vec::new(), 8);
    let context = Context {
        system_prompt: None,
        messages: Vec::new(),
        tools: Vec::new(),
    };
    assert_eq!(
        format_llm_context(4294967295, &config, &context, "[m]", "[t]"),
        "[pi-agent llm context] turn=4294967295\nprovider: vokotoken\napi: openai-completions\nmodel: gpt-5.5\nsystem_prompt:\n\nmessages:\n[m]\ntools:\n[t]"
    );
    assert_eq!(log_llm_context(Some("1"), 1, &config, &context, "", ""), None);
    assert_eq!(log_llm_context(None, 1, &config, &context, "", ""), None);
    assert_eq!(
        log_llm_context(Some("2"), 10, &config, &context, "m", "t"),
        Some(format_llm_context(10, &config, &context, "m", "t"))
    );
}

#[test]
fn run_without_calls_ends_after_the_answer() {
    let config = config(vec![tool("a", "")], 3);
    let (mut run, events) = run_agent(&config, user("hi"));
    assert_eq!(
        events,
        vec![
            AgentEvent::UserMessage { message: user("hi") },
            AgentEvent::AgentStart,
        ]
    );
    let (events, action) = take(&mut run, Input::Continue, 5);
    assert_eq!(events, vec![AgentEvent::TurnStart]);
    assert_eq!(
        action,
        Action::CallModel {
            turn: 1,
            context: Context {
                system_prompt: Some("system prompt".to_string()),
                messages: vec![user("hi")],
                tools: vec![tool("a", "")],
            },
            options: stream_options(),
        }
    );
    assert_eq!(
        take(&mut run, Input::Event(AssistantMessageEvent::Start), 5),
        (vec![], Action::ReadStream)
    );
    assert_eq!(
        take(
            &mut run,
            Input::Event(AssistantMessageEvent::TextDelta { content_index: 0, delta: "t".to_string() }),
            5
        ),
        (vec![AgentEvent::TextDelta { delta: "t".to_string() }], Action::ReadStream)
    );
    assert_eq!(
        take(
            &mut run,
            Input::Event(AssistantMessageEvent::ThinkingDelta { content_index: 1, delta: "u".to_string() }),
            5
        ),
        (vec![AgentEvent::ThinkingDelta { delta: "u".to_string() }], Action::ReadStream)
    );
    let message = answer(vec![Content::text("t")], StopReason::Stop, None);
    let (events, action) = take(&mut run, done(&message), 6);
    let messages = vec![user("hi"), Message::Assistant(message.clone())];
    assert_eq!(
        events,
        vec![
            AgentEvent::AssistantMessage { message: Message::Assistant(message) },
            AgentEvent::TurnEnd,
            AgentEvent::AgentEnd { messages: messages.clone() },
        ]
    );
    assert_eq!(
        action,
        Action::Finish(AgentRun { messages, stopped_at_turn_limit: false })
    );
    assert!(!run.accepts(&Input::Continue));
    assert!(!run.accepts(&Input::StreamEnded));
}

#[test]
fn calls_are_run_in_order_and_their_results_go_back() {
    let config = config(vec![tool("a", ""), tool("b", "")], 4);
    let (mut run, _) = run_agent(&config, user("hi"));
    take(&mut run, Input::Continue, 5);
    let message = answer(
        vec![call("1", "b"), Content::text("x"), call("22", "a"), call("3", "nope")],
        StopReason::ToolUse,
        None,
    );
    let told = AgentEvent::AssistantMessage { message: Message::Assistant(message.clone()) };
    assert_eq!(take(&mut run, done(&message), 6), (vec![told], Action::Continue));
    assert_eq!(
        check(&mut run, 1, false, 7),
        (
            vec![AgentEvent::ToolExecutionStart {
                tool_call_id: "1".to_string(),
                tool_name: "b".to_string(),
                args: Json::Integer(1),
            }],
            Action::Execute { tool: 1, id: "1".to_string(), args: Json::Integer(1) }
        )
    );
    let input = Input::ToolReturned { content: vec![Content::text("out")], terminate: true };
    assert_eq!(
        take(&mut run, input, 8),
        (
            vec![AgentEvent::ToolExecutionEnd {
                tool_call_id: "1".to_string(),
                tool_name: "b".to_string(),
                is_error: false,
                content: vec![Content::text("out")],
            }],
            Action::Continue
        )
    );
    assert_eq!(
        check(&mut run, 0, false, 9).1,
        Action::Execute { tool: 0, id: "22".to_string(), args: Json::Integer(2) }
    );
    let (events, _) = take(&mut run, Input::ToolFailed("boom".to_string()), 10);
    assert_eq!(
        events,
        vec![AgentEvent::ToolExecutionEnd {
            tool_call_id: "22".to_string(),
            tool_name: "a".to_string(),
            is_error: true,
            content: vec![Content::text("tool error: boom")],
        }]
    );
    let (events, action) = take(&mut run, Input::Continue, 11);
    assert_eq!(events.len(), 2);
    assert_eq!(
        events[1],
        AgentEvent::ToolExecutionEnd {
            tool_call_id: "3".to_string(),
            tool_name: "nope".to_string(),
            is_error: true,
            content: vec![Content::text("unknown tool: nope")],
        }
    );
    assert_eq!(action, Action::Continue);
    assert_eq!(
        take(&mut run, Input::Continue, 12),
        (vec![AgentEvent::TurnEnd], Action::Continue)
    );
    let (events, action) = take(&mut run, Input::Continue, 13);
    assert_eq!(events, vec![AgentEvent::TurnStart]);
    let (turn, messages) = match action {
        Action::CallModel { turn, context, .. } => (turn, context.messages),
        other => panic!("{other:?}"),
    };
    assert_eq!(turn, 2);
    assert_eq!(
        messages,
        vec![
            user("hi"),
            Message::Assistant(message),
            result("1", "b", vec![Content::text("out")], false, 8),
            error_result("22", "a", "tool error: boom", 10),
            error_result("3", "nope", "unknown tool: nope", 11),
        ]
    );
}

#[test]
fn run_ends_where_every_call_asks_for_it() {
    let config = config(vec![tool("a", "")], 4);
    for (second, ends) in [(true, true), (false, false)] {
        let (mut run, _) = run_agent(&config, user("hi"));
        take(&mut run, Input::Continue, 5);
        let message = answer(vec![call("1", "a"), call("2", "a")], StopReason::ToolUse, None);
        take(&mut run, done(&message), 6);
        for terminate in [true, second] {
            check(&mut run, 0, false, 7);
            take(&mut run, Input::ToolReturned { content: vec![], terminate }, 8);
        }
        let (events, action) = take(&mut run, Input::Continue, 9);
        assert_eq!(events[0], AgentEvent::TurnEnd);
        assert_eq!(matches!(action, Action::Finish(_)), ends);
        assert_eq!(events.len(), if ends { 2 } else { 1 });
    }
}

#[test]
fn calls_count_only_where_the_answer_stopped_for_them() {
    let config = config(vec![tool("a", "")], 4);
    let (mut run, _) = run_agent(&config, user("hi"));
    take(&mut run, Input::Continue, 5);
    let message = answer(vec![call("1", "a")], StopReason::Length, None);
    let (_, action) = take(&mut run, done(&message), 6);
    assert!(matches!(action, Action::Finish(_)));
    let (mut run, _) = run_agent(&config, user("hi"));
    take(&mut run, Input::Continue, 5);
    let message = answer(vec![Content::text("x")], StopReason::ToolUse, None);
    let (_, action) = take(&mut run, done(&message), 6);
    assert!(matches!(action, Action::Finish(_)));
}

#[test]
fn permission_is_asked_until_it_is_given_for_the_run() {
    let config = config(vec![tool("a", "")], 9);
    let (mut run, _) = run_agent(&config, user("hi"));
    take(&mut run, Input::Continue, 5);
    let message = answer(
        vec![call("1", "a"), call("2", "a"), call("3", "a"), call("4", "a")],
        StopReason::ToolUse,
        None,
    );
    take(&mut run, done(&message), 6);
    let ask = Action::AskPermission { name: "a".to_string(), args: Json::Integer(1) };
    assert_eq!(check(&mut run, 0, true, 7), (vec![], ask));
    let deny = PermissionDecision::Deny { reason: "no".to_string() };
    assert_eq!(
        take(&mut run, Input::Permission(deny), 8),
        (
            vec![AgentEvent::PermissionDenied {
                tool_name: "a".to_string(),
                reason: "no".to_string(),
            }],
            Action::Continue
        )
    );
    assert!(matches!(check(&mut run, 0, true, 9).1, Action::AskPermission { .. }));
    let (events, action) = take(&mut run, Input::Permission(PermissionDecision::Allow), 10);
    assert_eq!(events.len(), 1);
    assert_eq!(
        action,
        Action::Execute { tool: 0, id: "2".to_string(), args: Json::Integer(1) }
    );
    take(&mut run, Input::ToolReturned { content: vec![], terminate: true }, 11);
    assert!(matches!(check(&mut run, 0, true, 12).1, Action::AskPermission { .. }));
    let (_, action) = take(&mut run, Input::Permission(PermissionDecision::AllowSession), 13);
    assert!(matches!(action, Action::Execute { .. }));
    take(&mut run, Input::ToolReturned { content: vec![], terminate: true }, 14);
    assert!(matches!(check(&mut run, 0, true, 15).1, Action::Execute { .. }));
    take(&mut run, Input::ToolReturned { content: vec![], terminate: true }, 16);
    assert_eq!(
        take(&mut run, Input::Continue, 17),
        (vec![AgentEvent::TurnEnd], Action::Continue)
    );
    match take(&mut run, Input::Continue, 18).1 {
        Action::CallModel { context, .. } => {
            assert_eq!(context.messages[2], error_result("1", "a", "permission denied: no", 8));
            assert_eq!(context.messages.len(), 6);
        }
        other => panic!("{other:?}"),
    }
}

#[test]
fn tool_says_of_each_call_whether_it_has_to_be_permitted() {
    let config = config(vec![tool("a", "")], 9);
    let (mut run, _) = run_agent(&config, user("hi"));
    take(&mut run, Input::Continue, 5);
    let message = answer(vec![call("1", "a"), call("2", "a")], StopReason::ToolUse, None);
    take(&mut run, done(&message), 6);
    assert!(matches!(check(&mut run, 0, false, 7).1, Action::Execute { .. }));
    take(&mut run, Input::ToolReturned { content: vec![], terminate: false }, 8);
    assert!(matches!(check(&mut run, 0, true, 9).1, Action::AskPermission { .. }));
}

#[test]
fn last_tool_of_a_name_is_used() {
    let config = config(
        vec![tool("a", "first"), tool("b", ""), tool("a", "second")],
        2,
    );
    let (mut run, _) = run_agent(&config, user("hi"));
    take(&mut run, Input::Continue, 5);
    take(&mut run, done(&answer(vec![call("1", "a")], StopReason::ToolUse, None)), 6);
    assert_eq!(
        check(&mut run, 2, false, 7).1,
        Action::Execute { tool: 2, id: "1".to_string(), args: Json::Integer(1) }
    );
}

#[test]
fn turns_are_limited() {
    let config = config(vec![tool("a", "")], 1);
    let (mut run, _) = run_agent(&config, user("hi"));
    take(&mut run, Input::Continue, 5);
    take(&mut run, done(&answer(vec![call("1", "a")], StopReason::ToolUse, None)), 6);
    check(&mut run, 0, false, 7);
    take(&mut run, Input::ToolReturned { content: vec![], terminate: false }, 8);
    take(&mut run, Input::Continue, 9);
    let (events, action) = take(&mut run, Input::Continue, 10);
    assert!(matches!(events[..], [AgentEvent::AgentEnd { .. }]));
    match action {
        Action::Finish(run) => {
            assert!(run.stopped_at_turn_limit);
            assert_eq!(run.messages.len(), 3);
        }
        other => panic!("{other:?}"),
    }
}

#[test]
fn last_turn_that_answers_counts_as_stopped_at_the_limit() {
    let config = config(vec![], 1);
    let (mut run, _) = run_agent(&config, user("hi"));
    take(&mut run, Input::Continue, 5);
    let (_, action) = take(&mut run, done(&answer(vec![], StopReason::Stop, None)), 6);
    match action {
        Action::Finish(run) => assert!(run.stopped_at_turn_limit),
        other => panic!("{other:?}"),
    }
}

#[test]
fn run_without_turns_ends_at_once() {
    let config = config(vec![], 0);
    let (mut run, events) = run_agent_with_history(&config, Vec::new());
    assert_eq!(events, vec![AgentEvent::AgentStart]);
    assert_eq!(
        take(&mut run, Input::Continue, 5),
        (
            vec![AgentEvent::AgentEnd { messages: vec![] }],
            Action::Finish(AgentRun { messages: vec![], stopped_at_turn_limit: true })
        )
    );
}

#[test]
fn history_is_continued() {
    let config = config(vec![], 2);
    let history = vec![user("a"), user("b")];
    let (mut run, events) = run_agent_with_history(&config, history.clone());
    assert_eq!(
        events,
        vec![
            AgentEvent::UserMessage { message: user("b") },
            AgentEvent::AgentStart,
        ]
    );
    match take(&mut run, Input::Continue, 5).1 {
        Action::CallModel { context, .. } => assert_eq!(context.messages, history),
        other => panic!("{other:?}"),
    }
}

#[test]
fn failures_end_the_run_without_a_word() {
    let config = config(vec![], 2);
    let cases = vec![
        (
            Input::StreamFailed(StreamError::Cancelled),
            AgentError::Provider(StreamError::Cancelled),
        ),
        (
            Input::StreamEnded,
            AgentError::Other("provider stream produced no terminal event".to_string()),
        ),
        (
            Input::Event(AssistantMessageEvent::Error {
                reason: StopReason::Error,
                error: answer(vec![], StopReason::Error, Some("overloaded: busy")),
            }),
            AgentError::Other("overloaded: busy".to_string()),
        ),
        (
            Input::Event(AssistantMessageEvent::Error {
                reason: StopReason::Error,
                error: answer(vec![], StopReason::Error, None),
            }),
            AgentError::Other("provider error".to_string()),
        ),
    ];
    for (input, error) in cases {
        let (mut run, _) = run_agent(&config, user("hi"));
        take(&mut run, Input::Continue, 5);
        assert_eq!(take(&mut run, input, 6), (vec![], Action::Fail(error)));
        assert!(!run.accepts(&Input::Continue));
    }
}

#[test]
fn thinking_level_counts_where_the_options_name_none() {
    let reasoning = |level, asked| {
        let mut config = config(vec![], 1);
        config.thinking_level = level;
        config.stream_options.reasoning = asked;
        let (mut run, _) = run_agent(&config, user("hi"));
        match take(&mut run, Input::Continue, 5).1 {
            Action::CallModel { options, .. } => options.reasoning,
            other => panic!("{other:?}"),
        }
    };
    assert_eq!(reasoning(ThinkingLevel::High, None), Some(ThinkingLevel::High));
    assert_eq!(reasoning(ThinkingLevel::Off, None), None);
    assert_eq!(
        reasoning(ThinkingLevel::High, Some(ThinkingLevel::Low)),
        Some(ThinkingLevel::Low)
    );
    assert_eq!(
        reasoning(ThinkingLevel::High, Some(ThinkingLevel::Off)),
        Some(ThinkingLevel::Off)
    );
}

#[test]
fn inputs_are_taken_where_they_are_awaited() {
    let config = config(vec![], 1);
    let (mut run, _) = run_agent(&config, user("hi"));
    assert!(run.accepts(&Input::Continue));
    assert!(!run.accepts(&Input::StreamEnded));
    take(&mut run, Input::Continue, 5);
    assert!(!run.accepts(&Input::Continue));
    assert!(run.accepts(&Input::StreamEnded));
    assert!(!run.accepts(&Input::Permission(PermissionDecision::Allow)));
    assert!(!run.accepts(&Input::ToolFailed(String::new())));
}
