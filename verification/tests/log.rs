use pi_agent::headers::Headers;
use pi_agent::json::Json;
use pi_agent::providers::anthropic::AnthropicProvider;
use pi_agent::providers::debug::{
    format_provider_request, is_sensitive_header, log_provider_request, log_request, redact_url,
};
use pi_agent::providers::google::GoogleProvider;
use pi_agent::providers::openai_responses::OpenAiResponsesProvider;
use pi_agent::providers::{prepare_request, Provider};
use pi_agent::types::{CacheRetention, Context, Model, StreamOptions};

fn object(fields: Vec<(&str, Json)>) -> Json {
    Json::Object(
        fields
            .into_iter()
            .map(|(name, value)| (name.to_string(), value))
            .collect(),
    )
}

fn headers(list: &[(&str, &str)]) -> Headers {
    let mut headers = Headers::new();
    for (name, value) in list {
        headers.insert(name.to_string(), value.to_string());
    }
    headers
}

fn model() -> Model {
    Model {
        id: "m-1".to_string(),
        provider: "p".to_string(),
        api: "a".to_string(),
        base_url: "https://example.test/".to_string(),
        max_tokens: 100,
    }
}

fn context() -> Context {
    Context {
        system_prompt: None,
        messages: Vec::new(),
        tools: Vec::new(),
    }
}

fn options(key: &str) -> StreamOptions {
    StreamOptions {
        api_key: Some(key.to_string()),
        base_url: None,
        headers: headers(&[("x-trace", "t"), ("Proxy-Authorization", "hush")]),
        temperature: None,
        max_tokens: None,
        reasoning: None,
        cache_retention: CacheRetention::Off,
    }
}

fn shown<P: Provider>(provider: &P, key: &str) -> String {
    let request = prepare_request(provider, &model(), &context(), &options(key), &Vec::new()).unwrap();
    log_request(Some("1"), &model(), &request).unwrap()
}

#[test]
fn redacts_sensitive_headers() {
    let headers = headers(&[
        ("Authorization", "Bearer secret"),
        ("accept", "text/event-stream"),
        ("x-api-key", "secret"),
    ]);

    let output = format_provider_request(
        "test-provider",
        "test-api",
        "test-model",
        "POST",
        "https://example.test/v1/messages",
        &headers,
        &object(vec![(
            "messages",
            Json::Array(vec![object(vec![
                ("role", Json::text("user")),
                ("content", Json::text("hello")),
            ])]),
        )]),
    );

    assert!(output.contains("Authorization: <redacted>"));
    assert!(output.contains("x-api-key: <redacted>"));
    assert!(output.contains("accept: text/event-stream"));
    assert!(!output.contains("Bearer secret"));
    assert!(!output.contains("x-api-key: secret"));
}

#[test]
fn redacts_google_key_query_param() {
    let redacted =
        redact_url("https://generativelanguage.googleapis.com/v1beta/models/gemini:streamGenerateContent?alt=sse&key=secret");

    assert_eq!(
        redacted,
        "https://generativelanguage.googleapis.com/v1beta/models/gemini:streamGenerateContent?alt=sse&key=<redacted>"
    );
    assert!(!redacted.contains("secret"));
}

#[test]
fn preserves_prompt_and_messages_in_body() {
    let output = format_provider_request(
        "openai",
        "openai-completions",
        "gpt-test",
        "POST",
        "https://example.test/chat/completions",
        &Headers::new(),
        &object(vec![
            (
                "messages",
                Json::Array(vec![object(vec![
                    ("role", Json::text("user")),
                    ("content", Json::text("debug this exact prompt")),
                ])]),
            ),
            (
                "tools",
                Json::Array(vec![object(vec![
                    ("type", Json::text("function")),
                    ("function", object(vec![("name", Json::text("lookup"))])),
                ])]),
            ),
        ]),
    );

    assert!(output.contains("debug this exact prompt"));
    assert!(output.contains("lookup"));
}

#[test]
fn request_is_shown_line_by_line() {
    let output = format_provider_request(
        "p",
        "a",
        "m",
        "POST",
        "https://h/x?KEY=s&b=1#f",
        &headers(&[("b", "2"), ("a", "1"), ("My-Api-Key", "s")]),
        &object(vec![("n", Json::Integer(1))]),
    );
    assert_eq!(
        output,
        "[pi-ai provider request]\nprovider: p\napi: a\nmodel: m\nmethod: POST\nurl: https://h/x?KEY=<redacted>&b=1#f\nheaders:\nMy-Api-Key: <redacted>\na: 1\nb: 2\nbody:\n{\n  \"n\": 1\n}"
    );
}

#[test]
fn setting_decides_what_is_logged() {
    let none = Headers::new();
    let body = Json::Null;
    let log = |setting| log_provider_request(setting, "p", "a", "m", "POST", "u", &none, &body);
    assert_eq!(
        log(Some("1")),
        Some(format_provider_request("p", "a", "m", "POST", "u", &none, &body))
    );
    assert_eq!(log(Some("2")), None);
    assert_eq!(log(Some("")), None);
    assert_eq!(log(None), None);
}

#[test]
fn sensitive_headers_in_any_case() {
    for name in [
        "authorization",
        "AUTHORIZATION",
        "Proxy-Authorization",
        "x-api-key",
        "Api-Key",
        "my-api-key",
        "X-GOOG-API-KEY",
    ] {
        assert!(is_sensitive_header(name), "{name}");
    }
    for name in ["accept", "apikey", "x-api-keys", "authorizations", "", "api_key"] {
        assert!(!is_sensitive_header(name), "{name}");
    }
}

#[test]
fn only_the_values_of_key_are_hidden() {
    assert_eq!(redact_url("https://h/p"), "https://h/p");
    assert_eq!(redact_url("https://h/p#key=1?"), "https://h/p#key=1?");
    assert_eq!(redact_url("https://h/p?"), "https://h/p?");
    assert_eq!(redact_url("h?key"), "h?key");
    assert_eq!(redact_url("h?key="), "h?key=<redacted>");
    assert_eq!(redact_url("h?Key=a=b&monkey=1&key=2"), "h?Key=<redacted>&monkey=1&key=<redacted>");
    assert_eq!(redact_url("h?a=1#key=2&key=3"), "h?a=1#key=2&key=3");
    assert_eq!(redact_url("h?a=?&&key=x#"), "h?a=?&&key=<redacted>#");
}

#[test]
fn hiding_twice_is_hiding_once() {
    for url in ["h?key=1&b=2#f", "h", "h?KEY=&key=x", "h?a#b?c"] {
        let once = redact_url(url);
        assert_eq!(redact_url(&once), once);
    }
}

#[test]
fn queries_are_hidden_part_by_part() {
    assert_eq!(redact_url("h?a=1&key=2"), format!("{}&{}", redact_url("h?a=1"), "key=<redacted>"));
}

#[test]
fn what_is_shown_does_not_depend_on_the_key() {
    let anthropic = AnthropicProvider::new();
    assert_eq!(shown(&anthropic, "first"), shown(&anthropic, "second"));
    let openai = OpenAiResponsesProvider::new();
    assert_eq!(shown(&openai, "first"), shown(&openai, "second"));
    let google = GoogleProvider::new();
    assert_eq!(shown(&google, "first"), shown(&google, "second"));
    assert!(shown(&google, "first").contains("url: https://example.test/v1beta/models/m-1:streamGenerateContent?alt=sse&key=<redacted>\n"));
    assert!(shown(&anthropic, "first").contains("Proxy-Authorization: <redacted>\n"));
    assert!(shown(&anthropic, "first").contains("x-trace: t\n"));
}

#[test]
fn headers_are_kept_in_order_and_once() {
    let mut set = headers(&[("b", "1"), ("a", "2"), ("C", "3"), ("b", "4"), ("ab", "5")]);
    let list: Vec<(&str, &str)> = (0..set.len()).map(|i| set.header(i)).collect();
    assert_eq!(list, vec![("C", "3"), ("a", "2"), ("ab", "5"), ("b", "4")]);
    set.extend(&headers(&[("a", "6"), ("d", "7")]));
    let list: Vec<(&str, &str)> = (0..set.len()).map(|i| set.header(i)).collect();
    assert_eq!(list, vec![("C", "3"), ("a", "6"), ("ab", "5"), ("b", "4"), ("d", "7")]);
    assert_eq!(set.clone(), set);
    assert_eq!(Headers::new().len(), 0);
}
