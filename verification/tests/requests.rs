use pi_agent::headers::Headers;
use pi_agent::json;
use pi_agent::json::Json;
use pi_agent::providers::anthropic;
use pi_agent::providers::anthropic::AnthropicProvider;
use pi_agent::providers::google;
use pi_agent::providers::google::GoogleProvider;
use pi_agent::providers::openai_responses;
use pi_agent::providers::openai_responses::OpenAiResponsesProvider;
use pi_agent::providers::request::{classify_attempt, Attempt, Sent};
use pi_agent::providers::{prepare_request, Provider};
use pi_agent::types::{
    AssistantMessage, CacheRetention, Content, Context, Message, Model, StopReason, StreamError,
    StreamOptions, ThinkingLevel, Tool, ToolResultMessage, Usage,
};

fn model() -> Model {
    Model {
        id: "m-1".to_string(),
        provider: "p".to_string(),
        api: "a".to_string(),
        base_url: "https://example.test//".to_string(),
        max_tokens: 100,
    }
}

fn options() -> StreamOptions {
    StreamOptions {
        api_key: None,
        base_url: None,
        headers: Headers::new(),
        temperature: None,
        max_tokens: None,
        reasoning: None,
        cache_retention: CacheRetention::Off,
    }
}

fn user(content: Vec<Content>) -> Message {
    Message::User { content, timestamp: 1 }
}

fn assistant(content: Vec<Content>) -> Message {
    Message::Assistant(AssistantMessage {
        content,
        api: String::new(),
        provider: String::new(),
        model: String::new(),
        usage: Usage::default(),
        stop_reason: StopReason::Stop,
        error_message: None,
        timestamp: 2,
    })
}

fn image() -> Content {
    Content::Image { data: "AA==".to_string(), mime_type: "image/png".to_string() }
}

fn thinking(signature: Option<&str>) -> Content {
    Content::Thinking {
        thinking: "hm".to_string(),
        thinking_signature: signature.map(|s| s.to_string()),
    }
}

fn call() -> Content {
    Content::ToolCall {
        id: "c1".to_string(),
        name: "look".to_string(),
        arguments: json::parse(r#"{"q": "x"}"#).unwrap(),
    }
}

fn result(content: Vec<Content>) -> Message {
    Message::ToolResult(ToolResultMessage {
        tool_call_id: "c1".to_string(),
        tool_name: "look".to_string(),
        content,
        is_error: true,
        timestamp: 3,
    })
}

fn tool(name: &str) -> Tool {
    Tool {
        name: name.to_string(),
        description: "d".to_string(),
        parameters: json::parse(r#"{"type": "object"}"#).unwrap(),
    }
}

fn context(system: Option<&str>, messages: Vec<Message>, tools: Vec<Tool>) -> Context {
    Context {
        system_prompt: system.map(|s| s.to_string()),
        messages,
        tools,
    }
}

fn conversation() -> Vec<Message> {
    vec![
        user(vec![Content::text("a"), image(), Content::text("b")]),
        assistant(vec![thinking(Some("sig")), Content::text("c"), call(), Content::text("d")]),
        result(vec![Content::text("e"), call(), image(), Content::text("f")]),
    ]
}

fn compact(items: Vec<Json>) -> Vec<String> {
    items.iter().map(|item| item.to_compact()).collect()
}

#[test]
fn anthropic_messages_hold_every_piece() {
    assert_eq!(
        compact(anthropic::convert_messages(&conversation())),
        vec![
            r#"{"content":[{"text":"a","type":"text"},{"source":{"data":"AA==","media_type":"image/png","type":"base64"},"type":"image"},{"text":"b","type":"text"}],"role":"user"}"#,
            r#"{"content":[{"signature":"sig","thinking":"hm","type":"thinking"},{"text":"c","type":"text"},{"id":"c1","input":{"q":"x"},"name":"look","type":"tool_use"},{"text":"d","type":"text"}],"role":"assistant"}"#,
            r#"{"content":[{"content":[{"text":"e","type":"text"},{"text":"","type":"text"},{"source":{"data":"AA==","media_type":"image/png","type":"base64"},"type":"image"},{"text":"f","type":"text"}],"is_error":true,"tool_use_id":"c1","type":"tool_result"}],"role":"user"}"#,
        ]
    );
    assert_eq!(
        anthropic::content_to_block(&thinking(None)).to_compact(),
        r#"{"thinking":"hm","type":"thinking"}"#
    );
}

#[test]
fn anthropic_body_without_extras() {
    let body = anthropic::build_request_body(&model(), &context(None, vec![], vec![]), &options());
    assert_eq!(
        body.to_compact(),
        r#"{"max_tokens":100,"messages":[],"model":"m-1","stream":true}"#
    );
}

#[test]
fn anthropic_body_with_everything() {
    let mut options = options();
    options.max_tokens = Some(7);
    options.temperature = Some(json::from_value(serde_json::Value::from(0.5)));
    options.reasoning = Some(ThinkingLevel::Medium);
    let context = context(
        Some("sp"),
        vec![user(vec![Content::text("a"), Content::text("b")])],
        vec![tool("t1"), tool("t2")],
    );
    let plain = anthropic::build_request_body(&model(), &context, &options);
    assert_eq!(
        plain.to_compact(),
        r#"{"max_tokens":7,"messages":[{"content":[{"text":"a","type":"text"},{"text":"b","type":"text"}],"role":"user"}],"model":"m-1","stream":true,"system":"sp","temperature":0.5,"thinking":{"budget_tokens":8192,"type":"enabled"},"tools":[{"description":"d","input_schema":{"type":"object"},"name":"t1"},{"description":"d","input_schema":{"type":"object"},"name":"t2"}]}"#
    );
    options.cache_retention = CacheRetention::Short;
    let short = anthropic::build_request_body(&model(), &context, &options);
    assert_eq!(
        short.to_compact(),
        r#"{"max_tokens":7,"messages":[{"content":[{"text":"a","type":"text"},{"cache_control":{"type":"ephemeral"},"text":"b","type":"text"}],"role":"user"}],"model":"m-1","stream":true,"system":[{"cache_control":{"type":"ephemeral"},"text":"sp","type":"text"}],"temperature":0.5,"thinking":{"budget_tokens":8192,"type":"enabled"},"tools":[{"description":"d","input_schema":{"type":"object"},"name":"t1"},{"cache_control":{"type":"ephemeral"},"description":"d","input_schema":{"type":"object"},"name":"t2"}]}"#
    );
}

#[test]
fn anthropic_mark_goes_on_the_last_text_of_the_user() {
    let mut options = options();
    options.cache_retention = CacheRetention::Long;
    let messages = |messages| {
        let body = anthropic::build_request_body(&model(), &context(None, messages, vec![]), &options);
        body.get("messages").unwrap().to_compact()
    };
    assert_eq!(
        messages(vec![
            user(vec![Content::text("a")]),
            user(vec![Content::text("b"), image()]),
            assistant(vec![Content::text("c")]),
        ]),
        r#"[{"content":[{"text":"a","type":"text"}],"role":"user"},{"content":[{"cache_control":{"ttl":"1h","type":"ephemeral"},"text":"b","type":"text"},{"source":{"data":"AA==","media_type":"image/png","type":"base64"},"type":"image"}],"role":"user"},{"content":[{"text":"c","type":"text"}],"role":"assistant"}]"#
    );
    assert!(!messages(vec![user(vec![Content::text("a")]), result(vec![Content::text("e")])])
        .contains("cache_control"));
    assert!(!messages(vec![user(vec![Content::text("a")]), user(vec![image()])])
        .contains("cache_control"));
    assert!(!messages(vec![assistant(vec![Content::text("c")])]).contains("cache_control"));
    assert_eq!(messages(vec![]), "[]");
}

#[test]
fn anthropic_bodies_differ_in_the_marks_alone() {
    let context = context(Some("sp"), conversation(), vec![tool("t1"), tool("t2")]);
    let body = |retention| {
        let mut options = options();
        options.cache_retention = retention;
        anthropic::build_request_body(&model(), &context, &options).to_compact()
    };
    let plain = body(CacheRetention::Off);
    assert!(!plain.contains("cache_control"));
    for (retention, mark) in [
        (CacheRetention::Short, r#""cache_control":{"type":"ephemeral"},"#),
        (CacheRetention::Long, r#""cache_control":{"ttl":"1h","type":"ephemeral"},"#),
    ] {
        let marked = body(retention);
        assert_eq!(marked.matches("cache_control").count(), 2);
        assert_eq!(
            marked.replace(mark, "").replace(r#"[{"text":"sp","type":"text"}]"#, r#""sp""#),
            plain
        );
    }
}

#[test]
fn anthropic_thinking_budgets() {
    assert_eq!(anthropic::thinking_budget(ThinkingLevel::Off), None);
    assert_eq!(anthropic::thinking_budget(ThinkingLevel::Minimal), Some(1024));
    assert_eq!(anthropic::thinking_budget(ThinkingLevel::Low), Some(2048));
    assert_eq!(anthropic::thinking_budget(ThinkingLevel::Medium), Some(8192));
    assert_eq!(anthropic::thinking_budget(ThinkingLevel::High), Some(16384));
    assert_eq!(anthropic::thinking_budget(ThinkingLevel::Xhigh), Some(24576));
    let mut options = options();
    options.reasoning = Some(ThinkingLevel::Off);
    let body = anthropic::build_request_body(&model(), &context(None, vec![], vec![]), &options);
    assert_eq!(body.get("thinking"), None);
    assert_eq!(anthropic::cache_control_json(CacheRetention::Off), None);
}

#[test]
fn openai_items_follow_the_conversation() {
    let mut messages = conversation();
    messages.push(assistant(vec![thinking(None)]));
    assert_eq!(
        compact(openai_responses::convert_input(&messages)),
        vec![
            r#"{"content":[{"text":"ab","type":"input_text"}],"role":"user","type":"message"}"#,
            r#"{"content":[{"text":"cd","type":"output_text"}],"role":"assistant","type":"message"}"#,
            r#"{"arguments":"{\"q\":\"x\"}","call_id":"c1","name":"look","type":"function_call"}"#,
            r#"{"call_id":"c1","output":"ef","type":"function_call_output"}"#,
        ]
    );
    assert_eq!(
        openai_responses::to_call_item("i", "n", "args").to_compact(),
        r#"{"arguments":"args","call_id":"i","name":"n","type":"function_call"}"#
    );
}

#[test]
fn openai_body() {
    let plain = openai_responses::build_body(&model(), &context(None, vec![], vec![]), &options());
    assert_eq!(plain.to_compact(), r#"{"input":[],"model":"m-1","stream":true}"#);
    let mut options = options();
    options.max_tokens = Some(9);
    options.temperature = Some(Json::Integer(1));
    options.reasoning = Some(ThinkingLevel::Xhigh);
    let full = openai_responses::build_body(
        &model(),
        &context(Some("sp"), vec![], vec![tool("t1")]),
        &options,
    );
    assert_eq!(
        full.to_compact(),
        r#"{"input":[],"instructions":"sp","max_output_tokens":9,"model":"m-1","reasoning":{"effort":"high"},"stream":true,"temperature":1,"tools":[{"description":"d","name":"t1","parameters":{"type":"object"},"type":"function"}]}"#
    );
}

#[test]
fn openai_reasoning_efforts() {
    assert_eq!(openai_responses::reasoning_effort(ThinkingLevel::Off), None);
    assert_eq!(openai_responses::reasoning_effort(ThinkingLevel::Minimal), Some("low"));
    assert_eq!(openai_responses::reasoning_effort(ThinkingLevel::Low), Some("low"));
    assert_eq!(openai_responses::reasoning_effort(ThinkingLevel::Medium), Some("medium"));
    assert_eq!(openai_responses::reasoning_effort(ThinkingLevel::High), Some("high"));
    assert_eq!(openai_responses::reasoning_effort(ThinkingLevel::Xhigh), Some("high"));
}

#[test]
fn google_contents_follow_the_conversation() {
    assert_eq!(
        compact(google::convert_messages(&conversation())),
        vec![
            r#"{"parts":[{"text":"a"},{"text":"b"}],"role":"user"}"#,
            r#"{"parts":[{"text":"c"},{"functionCall":{"args":{"q":"x"},"name":"look"}},{"text":"d"}],"role":"model"}"#,
            r#"{"parts":[{"functionResponse":{"name":"look","response":{"is_error":true,"output":"ef"}}}],"role":"user"}"#,
        ]
    );
}

#[test]
fn google_body() {
    let plain = google::build_body(&context(None, vec![], vec![]), &options());
    assert_eq!(plain.to_compact(), r#"{"contents":[]}"#);
    let mut options = options();
    options.temperature = Some(Json::Integer(0));
    options.max_tokens = Some(9);
    let full = google::build_body(&context(Some("sp"), vec![], vec![tool("t1")]), &options);
    assert_eq!(
        full.to_compact(),
        r#"{"contents":[],"generationConfig":{"temperature":0},"systemInstruction":{"parts":[{"text":"sp"}],"role":"system"},"tools":[{"functionDeclarations":[{"description":"d","name":"t1","parameters":{"type":"object"}}]}]}"#
    );
}

fn strings(list: &[(&str, &str)]) -> Vec<(String, String)> {
    list.iter().map(|(a, b)| (a.to_string(), b.to_string())).collect()
}

#[test]
fn requests_of_each_provider() {
    let mut options = options();
    options.headers.insert("z".to_string(), "1".to_string());
    options.headers.insert("accept".to_string(), "mine".to_string());
    let none = context(None, vec![], vec![]);
    let found = vec![None, Some("k".to_string()), Some("later".to_string())];

    let anthropic = AnthropicProvider::default();
    let request = prepare_request(&anthropic, &model(), &none, &options, &found).unwrap();
    assert_eq!(request.url, "https://example.test/v1/messages");
    assert_eq!(request.bearer, None);
    assert_eq!(
        request.headers,
        strings(&[
            ("x-api-key", "k"),
            ("anthropic-version", "2023-06-01"),
            ("accept", "text/event-stream"),
            ("content-type", "application/json"),
            ("accept", "mine"),
            ("z", "1"),
        ])
    );
    let logged: Vec<(&str, &str)> =
        (0..request.logged.len()).map(|i| request.logged.header(i)).collect();
    assert_eq!(
        logged,
        vec![
            ("accept", "mine"),
            ("anthropic-version", "2023-06-01"),
            ("content-type", "application/json"),
            ("x-api-key", "k"),
            ("z", "1"),
        ]
    );
    assert_eq!(request.body, anthropic::build_request_body(&model(), &none, &options));
    assert_eq!(anthropic.pool_max_idle_per_host(), Some(4));
    assert_eq!(anthropic.key_variables(), vec!["ANTHROPIC_API_KEY"]);

    let openai = OpenAiResponsesProvider::default();
    let request = prepare_request(&openai, &model(), &none, &options, &found).unwrap();
    assert_eq!(request.url, "https://example.test/responses");
    assert_eq!(request.bearer, Some("k".to_string()));
    assert_eq!(
        request.headers,
        strings(&[
            ("accept", "text/event-stream"),
            ("content-type", "application/json"),
            ("accept", "mine"),
            ("z", "1"),
        ])
    );
    assert_eq!(request.logged.header(1), ("authorization", "Bearer k"));
    assert_eq!(openai.pool_max_idle_per_host(), None);
    assert_eq!(openai.key_variables(), vec!["OPENAI_API_KEY"]);

    options.base_url = Some("http://other/".to_string());
    options.api_key = Some("mine".to_string());
    let google = GoogleProvider::default();
    let request = prepare_request(&google, &model(), &none, &options, &found).unwrap();
    assert_eq!(
        request.url,
        "http://other/v1beta/models/m-1:streamGenerateContent?alt=sse&key=mine"
    );
    assert_eq!(google.key_variables(), vec!["GOOGLE_API_KEY", "GEMINI_API_KEY"]);
    assert_eq!(google.pool_max_idle_per_host(), None);
}

#[test]
fn request_without_a_key_is_refused() {
    let none = context(None, vec![], vec![]);
    let missing = |name: &str| Err(StreamError::MissingApiKey(name.to_string()));
    let found = vec![None, None];
    assert_eq!(
        prepare_request(&AnthropicProvider::new(), &model(), &none, &options(), &found),
        missing("anthropic")
    );
    assert_eq!(
        prepare_request(&OpenAiResponsesProvider::new(), &model(), &none, &options(), &found),
        missing("openai")
    );
    assert_eq!(
        prepare_request(&GoogleProvider::new(), &model(), &none, &options(), &found),
        missing("google")
    );
}

#[test]
fn attempts_are_ready_tried_again_or_final() {
    let failed = |timeout, connect| {
        classify_attempt(Sent::Failed { reason: "r".to_string(), timeout, connect })
    };
    let http = || StreamError::Http("r".to_string());
    assert_eq!(failed(true, false), Attempt::Retry { error: http(), retry_after_ms: None });
    assert_eq!(failed(false, true), Attempt::Retry { error: http(), retry_after_ms: None });
    assert_eq!(failed(false, false), Attempt::Fatal(http()));
    let answered = |status, retryable| {
        classify_attempt(Sent::Answered {
            status,
            body: "b".to_string(),
            retryable,
            retry_after_ms: Some(5),
        })
    };
    let error = |status| StreamError::ProviderError { status, body: "b".to_string() };
    assert_eq!(answered(200, false), Attempt::Ready);
    assert_eq!(answered(299, true), Attempt::Ready);
    assert_eq!(
        answered(429, true),
        Attempt::Retry { error: error(429), retry_after_ms: Some(5) }
    );
    assert_eq!(answered(300, false), Attempt::Fatal(error(300)));
    assert_eq!(answered(199, false), Attempt::Fatal(error(199)));
}
