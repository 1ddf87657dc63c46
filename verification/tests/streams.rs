use pi_agent::json;
use pi_agent::json::Json;
use pi_agent::providers::anthropic_events::{
    AnthropicStream, BlockDelta, BlockStart, SseEvent, UsageDelta,
};
use pi_agent::providers::google_events::{
    Candidate, CandidateContent, Chunk, FunctionCall, GoogleStream, Part, UsageMetadata,
};
use pi_agent::providers::openai_responses_events::{
    record_kind, DeltaEnvelope, OutputItem, RecordKind, ResponsesEvent, ResponsesStream,
};
use pi_agent::providers::stream::{arrived, Incoming, Next, Step};
use pi_agent::types::{
    AssistantMessage, AssistantMessageEvent, Content, Model, StopReason, StreamError, Usage,
};

fn model() -> Model {
    Model {
        id: "m-1".to_string(),
        provider: "p".to_string(),
        api: "a".to_string(),
        base_url: "https://example.test".to_string(),
        max_tokens: 100,
    }
}

fn message(
    content: Vec<Content>,
    model: &str,
    usage: Usage,
    stop_reason: StopReason,
    error: Option<&str>,
) -> AssistantMessage {
    AssistantMessage {
        content,
        api: "a".to_string(),
        provider: "p".to_string(),
        model: model.to_string(),
        usage,
        stop_reason,
        error_message: error.map(|e| e.to_string()),
        timestamp: 9,
    }
}

fn usage(input: u64, output: u64, read: u64, write: u64, total: u64) -> Usage {
    Usage {
        input,
        output,
        cache_read: read,
        cache_write: write,
        total_tokens: total,
        priced: true,
        cost_bits: 0,
    }
}

fn told(events: Vec<AssistantMessageEvent>) -> Step {
    Step { events, next: Next::Read }
}

fn nothing(next: Next) -> Step {
    Step { events: vec![], next }
}

fn text_delta(content_index: usize, delta: &str) -> AssistantMessageEvent {
    AssistantMessageEvent::TextDelta { content_index, delta: delta.to_string() }
}

fn call_start(content_index: usize, id: &str, name: &str) -> AssistantMessageEvent {
    AssistantMessageEvent::ToolCallStart {
        content_index,
        id: id.to_string(),
        name: name.to_string(),
    }
}

fn call_end(content_index: usize, id: &str, name: &str, arguments: &str) -> AssistantMessageEvent {
    AssistantMessageEvent::ToolCallEnd {
        content_index,
        id: id.to_string(),
        name: name.to_string(),
        arguments: json::parse(arguments).unwrap(),
    }
}

fn call(id: &str, name: &str, arguments: &str) -> Content {
    Content::ToolCall {
        id: id.to_string(),
        name: name.to_string(),
        arguments: json::parse(arguments).unwrap(),
    }
}

fn counts(input: u64, output: u64, read: u64, write: u64) -> Option<UsageDelta> {
    Some(UsageDelta {
        input_tokens: input,
        output_tokens: output,
        cache_read_input_tokens: read,
        cache_creation_input_tokens: write,
    })
}

fn hear(stream: &mut AnthropicStream, event: SseEvent) -> Step {
    assert!(stream.accepts(&event));
    stream.receive(Incoming::Record(Some(event)), 9)
}

fn block_delta(index: usize, delta: BlockDelta) -> SseEvent {
    SseEvent::ContentBlockDelta { index, delta }
}

#[test]
fn anthropic_answer_is_read() {
    let (mut stream, events) = AnthropicStream::open(&model());
    assert_eq!(events, vec![AssistantMessageEvent::Start]);
    let start = SseEvent::MessageStart { model: Some("m-2".to_string()), usage: counts(3, 100, 4, 5) };
    assert_eq!(hear(&mut stream, start), nothing(Next::Read));
    assert_eq!(
        hear(&mut stream, SseEvent::ContentBlockStart { index: 0, content_block: BlockStart::Thinking }),
        told(vec![AssistantMessageEvent::ThinkingStart { content_index: 0 }])
    );
    assert_eq!(
        hear(&mut stream, block_delta(0, BlockDelta::ThinkingDelta { thinking: "hm".to_string() })),
        told(vec![AssistantMessageEvent::ThinkingDelta { content_index: 0, delta: "hm".to_string() }])
    );
    assert_eq!(
        hear(&mut stream, block_delta(0, BlockDelta::SignatureDelta { signature: "s".to_string() })),
        nothing(Next::Read)
    );
    assert_eq!(
        hear(&mut stream, SseEvent::ContentBlockStop { index: 0 }),
        told(vec![AssistantMessageEvent::ThinkingEnd { content_index: 0, content: "hm".to_string() }])
    );
    assert_eq!(
        hear(&mut stream, SseEvent::ContentBlockStart { index: 2, content_block: BlockStart::Text }),
        told(vec![AssistantMessageEvent::TextStart { content_index: 2 }])
    );
    for piece in ["a", "b"] {
        assert_eq!(
            hear(&mut stream, block_delta(2, BlockDelta::TextDelta { text: piece.to_string() })),
            told(vec![text_delta(2, piece)])
        );
    }
    assert_eq!(
        hear(
            &mut stream,
            SseEvent::ContentBlockStart {
                index: 1,
                content_block: BlockStart::ToolUse { id: "t".to_string(), name: "look".to_string() },
            }
        ),
        told(vec![call_start(1, "t", "look")])
    );
    for piece in [r#"{"q""#, r#": 1}"#] {
        assert_eq!(
            hear(
                &mut stream,
                block_delta(1, BlockDelta::InputJsonDelta { partial_json: piece.to_string() })
            ),
            told(vec![AssistantMessageEvent::ToolCallDelta {
                content_index: 1,
                delta: piece.to_string(),
            }])
        );
    }
    assert_eq!(
        hear(&mut stream, SseEvent::ContentBlockStop { index: 1 }),
        told(vec![call_end(1, "t", "look", r#"{"q":1}"#)])
    );
    assert_eq!(
        hear(&mut stream, SseEvent::ContentBlockStop { index: 2 }),
        told(vec![AssistantMessageEvent::TextEnd { content_index: 2, content: "ab".to_string() }])
    );
    let delta = SseEvent::MessageDelta {
        stop_reason: Some("tool_use".to_string()),
        usage: counts(50, 7, 60, 70),
    };
    assert_eq!(hear(&mut stream, delta), nothing(Next::Read));
    assert_eq!(hear(&mut stream, SseEvent::MessageStop), nothing(Next::Read));
    assert!(stream.can_finish());
    assert_eq!(
        stream.finish(9),
        vec![AssistantMessageEvent::Done {
            reason: StopReason::ToolUse,
            message: message(
                vec![
                    Content::Thinking {
                        thinking: "hm".to_string(),
                        thinking_signature: Some("s".to_string()),
                    },
                    Content::text("ab"),
                    call("t", "look", r#"{"q":1}"#),
                ],
                "m-2",
                usage(3, 7, 4, 5, 10),
                StopReason::ToolUse,
                None,
            ),
        }]
    );
}

#[test]
fn anthropic_arguments_that_are_not_json_are_none() {
    let (mut stream, _) = AnthropicStream::open(&model());
    let start = |index, id: &str| SseEvent::ContentBlockStart {
        index,
        content_block: BlockStart::ToolUse { id: id.to_string(), name: "n".to_string() },
    };
    hear(&mut stream, start(0, "empty"));
    hear(&mut stream, start(1, "broken"));
    hear(&mut stream, block_delta(1, BlockDelta::InputJsonDelta { partial_json: "{".to_string() }));
    assert_eq!(
        hear(&mut stream, SseEvent::ContentBlockStop { index: 0 }),
        told(vec![call_end(0, "empty", "n", "{}")])
    );
    assert_eq!(
        hear(&mut stream, SseEvent::ContentBlockStop { index: 1 }),
        told(vec![call_end(1, "broken", "n", "{}")])
    );
}

#[test]
fn anthropic_unknown_blocks_are_passed_over() {
    let (mut stream, _) = AnthropicStream::open(&model());
    let start = SseEvent::ContentBlockStart { index: 0, content_block: BlockStart::Other };
    assert_eq!(hear(&mut stream, start), nothing(Next::Read));
    assert_eq!(
        hear(&mut stream, block_delta(0, BlockDelta::TextDelta { text: "x".to_string() })),
        told(vec![text_delta(0, "x")])
    );
    assert_eq!(hear(&mut stream, block_delta(5, BlockDelta::Other)), nothing(Next::Read));
    assert_eq!(hear(&mut stream, SseEvent::ContentBlockStop { index: 0 }), nothing(Next::Read));
    assert_eq!(hear(&mut stream, SseEvent::ContentBlockStop { index: 7 }), nothing(Next::Read));
    assert_eq!(hear(&mut stream, SseEvent::Ping), nothing(Next::Read));
    assert_eq!(hear(&mut stream, SseEvent::Other), nothing(Next::Read));
    assert_eq!(stream.receive(Incoming::Record(None), 9), nothing(Next::Read));
    match &stream.finish(9)[..] {
        [AssistantMessageEvent::Done { reason, message }] => {
            assert_eq!(*reason, StopReason::Stop);
            assert_eq!(message.content, vec![]);
            assert_eq!(message.model, "m-1");
        }
        other => panic!("{other:?}"),
    }
}

#[test]
fn anthropic_block_started_twice_is_in_the_answer_twice() {
    let (mut stream, _) = AnthropicStream::open(&model());
    for _ in 0..2 {
        hear(&mut stream, SseEvent::ContentBlockStart { index: 0, content_block: BlockStart::Text });
        hear(&mut stream, block_delta(0, BlockDelta::TextDelta { text: "x".to_string() }));
    }
    match &stream.finish(9)[..] {
        [AssistantMessageEvent::Done { message, .. }] => {
            assert_eq!(message.content, vec![Content::text("xx"), Content::text("xx")]);
        }
        other => panic!("{other:?}"),
    }
}

#[test]
fn anthropic_stop_reasons() {
    for (name, reason) in [
        (Some("tool_use"), StopReason::ToolUse),
        (Some("max_tokens"), StopReason::Length),
        (Some("end_turn"), StopReason::Stop),
        (Some("stop_sequence"), StopReason::Stop),
        (Some("refusal"), StopReason::Stop),
        (None, StopReason::Stop),
    ] {
        let (mut stream, _) = AnthropicStream::open(&model());
        let delta = SseEvent::MessageDelta {
            stop_reason: name.map(|n| n.to_string()),
            usage: None,
        };
        hear(&mut stream, delta);
        match &stream.finish(9)[..] {
            [AssistantMessageEvent::Done { reason: told, .. }] => assert_eq!(*told, reason),
            other => panic!("{other:?}"),
        }
    }
}

#[test]
fn anthropic_error_ends_the_stream() {
    let (mut stream, _) = AnthropicStream::open(&model());
    hear(&mut stream, SseEvent::MessageStart { model: None, usage: counts(3, 0, 4, 5) });
    let error = SseEvent::Error { kind: "overloaded".to_string(), message: "busy".to_string() };
    assert_eq!(
        hear(&mut stream, error),
        Step {
            events: vec![AssistantMessageEvent::Error {
                reason: StopReason::Error,
                error: message(
                    vec![],
                    "m-1",
                    usage(3, 0, 4, 5, 0),
                    StopReason::Error,
                    Some("overloaded: busy"),
                ),
            }],
            next: Next::Close,
        }
    );
}

#[test]
fn anthropic_counts_that_do_not_fit_are_not_accepted() {
    let (mut stream, _) = AnthropicStream::open(&model());
    hear(&mut stream, SseEvent::MessageStart { model: None, usage: counts(u64::MAX, 0, 0, 0) });
    assert!(!stream.accepts(&SseEvent::MessageStart { model: None, usage: counts(1, 0, 0, 0) }));
    assert!(stream.accepts(&SseEvent::MessageStart { model: None, usage: None }));
    assert!(stream.can_finish());
    hear(&mut stream, SseEvent::MessageDelta { stop_reason: None, usage: counts(0, 1, 0, 0) });
    assert!(!stream.can_finish());
}

#[test]
fn streams_fail_when_cancelled_or_broken() {
    let broken = || Incoming::Broken::<SseEvent>("cut".to_string());
    let failure = || nothing(Next::Fail(StreamError::InvalidResponse("sse: cut".to_string())));
    let cancelled = || nothing(Next::Fail(StreamError::Cancelled));
    let (mut stream, _) = AnthropicStream::open(&model());
    assert_eq!(stream.receive(Incoming::Cancelled, 9), cancelled());
    assert_eq!(stream.receive(broken(), 9), failure());
    let (mut stream, _) = ResponsesStream::open(&model());
    assert_eq!(stream.receive(Incoming::Cancelled), cancelled());
    assert_eq!(stream.receive(Incoming::Broken("cut".to_string())), failure());
    let (mut stream, _) = GoogleStream::open(&model());
    assert_eq!(stream.receive(Incoming::Cancelled), cancelled());
    assert_eq!(stream.receive(Incoming::Broken("cut".to_string())), failure());
}

fn envelope(delta: Option<&str>, item_id: Option<&str>, output_index: Option<usize>) -> DeltaEnvelope {
    DeltaEnvelope {
        delta: delta.map(|d| d.to_string()),
        item_id: item_id.map(|i| i.to_string()),
        output_index,
    }
}

fn item(kind: &str, id: Option<&str>, call_id: Option<&str>, name: Option<&str>) -> ResponsesEvent {
    ResponsesEvent::OutputItemAdded {
        item: Some(OutputItem {
            item_type: kind.to_string(),
            id: id.map(|i| i.to_string()),
            call_id: call_id.map(|i| i.to_string()),
            name: name.map(|n| n.to_string()),
        }),
    }
}

fn feed(stream: &mut ResponsesStream, event: ResponsesEvent) -> Step {
    stream.receive(Incoming::Record(Some(event)))
}

fn call_delta(content_index: usize, delta: &str) -> AssistantMessageEvent {
    AssistantMessageEvent::ToolCallDelta { content_index, delta: delta.to_string() }
}

#[test]
fn openai_answer_is_read() {
    let (mut stream, events) = ResponsesStream::open(&model());
    assert_eq!(events, vec![AssistantMessageEvent::Start]);
    assert_eq!(
        feed(&mut stream, ResponsesEvent::OutputTextDelta(envelope(Some(""), None, None))),
        nothing(Next::Read)
    );
    assert_eq!(
        feed(&mut stream, ResponsesEvent::OutputTextDelta(envelope(Some("a"), None, None))),
        told(vec![
            AssistantMessageEvent::TextStart { content_index: 0 },
            text_delta(0, "a"),
        ])
    );
    assert_eq!(
        feed(&mut stream, ResponsesEvent::OutputTextDelta(envelope(Some("b"), None, None))),
        told(vec![text_delta(0, "b")])
    );
    assert_eq!(feed(&mut stream, item("message", None, None, None)), nothing(Next::Read));
    assert_eq!(
        feed(&mut stream, item("function_call", Some("i1"), Some("c1"), Some("look"))),
        told(vec![call_start(1, "c1", "look")])
    );
    assert_eq!(
        feed(&mut stream, item("function_call", Some("i2"), None, None)),
        told(vec![call_start(2, "i2", "")])
    );
    let arguments = |delta, id, index| {
        ResponsesEvent::FunctionCallArgumentsDelta(envelope(delta, id, index))
    };
    assert_eq!(
        feed(&mut stream, arguments(Some("{\"q\":"), Some("i1"), Some(1))),
        told(vec![call_delta(1, "{\"q\":")])
    );
    assert_eq!(
        feed(&mut stream, arguments(Some("2}"), Some("unknown"), Some(0))),
        told(vec![call_delta(1, "2}")])
    );
    assert_eq!(
        feed(&mut stream, arguments(Some("{"), None, None)),
        told(vec![call_delta(2, "{")])
    );
    assert_eq!(feed(&mut stream, arguments(Some("x"), None, Some(9))), nothing(Next::Read));
    assert_eq!(feed(&mut stream, arguments(None, Some("i1"), None)), nothing(Next::Read));
    assert_eq!(
        feed(&mut stream, ResponsesEvent::OutputItemAdded { item: None }),
        nothing(Next::Read)
    );
    assert_eq!(feed(&mut stream, ResponsesEvent::Completed), nothing(Next::Finish));
    assert_eq!(
        stream.finish(9),
        vec![
            AssistantMessageEvent::TextEnd { content_index: 0, content: "ab".to_string() },
            call_end(1, "c1", "look", r#"{"q":2}"#),
            call_end(2, "i2", "", "{}"),
            AssistantMessageEvent::Done {
                reason: StopReason::ToolUse,
                message: message(
                    vec![
                        Content::text("ab"),
                        call("c1", "look", r#"{"q":2}"#),
                        call("i2", "", "{}"),
                    ],
                    "m-1",
                    Usage::default(),
                    StopReason::ToolUse,
                    None,
                ),
            },
        ]
    );
}

#[test]
fn openai_answer_without_calls_stops() {
    let (stream, _) = ResponsesStream::open(&model());
    assert_eq!(
        stream.finish(9),
        vec![AssistantMessageEvent::Done {
            reason: StopReason::Stop,
            message: message(vec![], "m-1", Usage::default(), StopReason::Stop, None),
        }]
    );
}

#[test]
fn openai_arguments_without_a_call_are_dropped() {
    let (mut stream, _) = ResponsesStream::open(&model());
    let delta = ResponsesEvent::FunctionCallArgumentsDelta(envelope(Some("{}"), None, None));
    assert_eq!(feed(&mut stream, delta), nothing(Next::Read));
}

#[test]
fn openai_record_kinds() {
    assert_eq!(record_kind("response.output_text.delta", "{}"), RecordKind::OutputTextDelta);
    assert_eq!(record_kind("response.output_item.added", "{}"), RecordKind::OutputItemAdded);
    assert_eq!(
        record_kind("response.function_call_arguments.delta", "{}"),
        RecordKind::FunctionCallArgumentsDelta
    );
    assert_eq!(record_kind("response.completed", "{}"), RecordKind::Completed);
    assert_eq!(record_kind("response.completed", ""), RecordKind::Ignored);
    assert_eq!(record_kind("response.created", "{}"), RecordKind::Ignored);
}

fn text_part(text: &str) -> Part {
    Part { text: Some(text.to_string()), function_call: None }
}

fn call_part(name: &str, args: Json) -> Part {
    Part {
        text: None,
        function_call: Some(FunctionCall { name: name.to_string(), args }),
    }
}

fn chunk(parts: Vec<Part>, finish_reason: Option<&str>) -> Chunk {
    Chunk {
        candidates: vec![Candidate {
            content: Some(CandidateContent { parts }),
            finish_reason: finish_reason.map(|r| r.to_string()),
        }],
        usage_metadata: None,
        model_version: None,
    }
}

fn gulp(stream: &mut GoogleStream, chunk: Chunk) -> Step {
    stream.receive(Incoming::Record(Some(chunk)))
}

#[test]
fn google_answer_is_read() {
    let (mut stream, events) = GoogleStream::open(&model());
    assert_eq!(events, vec![AssistantMessageEvent::Start]);
    assert_eq!(
        gulp(&mut stream, chunk(vec![text_part(""), text_part("a"), text_part("b")], None)),
        told(vec![
            AssistantMessageEvent::TextStart { content_index: 0 },
            text_delta(0, "a"),
            text_delta(0, "b"),
        ])
    );
    let mut last = chunk(
        vec![call_part("look", Json::Integer(1)), call_part("see", Json::Null)],
        Some("STOP"),
    );
    last.usage_metadata = Some(UsageMetadata {
        prompt_token_count: 3,
        candidates_token_count: 4,
        total_token_count: 8,
    });
    last.model_version = Some("g-2".to_string());
    assert_eq!(
        gulp(&mut stream, last),
        told(vec![
            call_start(1, "call_1", "look"),
            call_end(1, "call_1", "look", "1"),
            call_start(2, "call_2", "see"),
            call_end(2, "call_2", "see", "null"),
        ])
    );
    assert_eq!(stream.receive(Incoming::Record(None)), nothing(Next::Read));
    assert_eq!(
        stream.finish(9),
        vec![
            AssistantMessageEvent::TextEnd { content_index: 0, content: "ab".to_string() },
            AssistantMessageEvent::Done {
                reason: StopReason::ToolUse,
                message: message(
                    vec![
                        Content::text("ab"),
                        call("call_1", "look", "1"),
                        call("call_2", "see", "null"),
                    ],
                    "g-2",
                    usage(3, 4, 0, 0, 8),
                    StopReason::ToolUse,
                    None,
                ),
            },
        ]
    );
}

#[test]
fn google_stop_reasons() {
    let reason = |chunks: Vec<Chunk>| {
        let (mut stream, _) = GoogleStream::open(&model());
        for chunk in chunks {
            gulp(&mut stream, chunk);
        }
        match stream.finish(9).pop() {
            Some(AssistantMessageEvent::Done { reason, message }) => {
                assert_eq!(message.stop_reason, reason);
                reason
            }
            other => panic!("{other:?}"),
        }
    };
    let calls = || vec![call_part("look", Json::Null)];
    assert_eq!(reason(vec![]), StopReason::Stop);
    assert_eq!(reason(vec![chunk(vec![], Some("STOP"))]), StopReason::Stop);
    assert_eq!(reason(vec![chunk(vec![], Some("SAFETY"))]), StopReason::Stop);
    assert_eq!(reason(vec![chunk(vec![], Some("MAX_TOKENS"))]), StopReason::Length);
    assert_eq!(reason(vec![chunk(calls(), None)]), StopReason::ToolUse);
    assert_eq!(reason(vec![chunk(calls(), None), chunk(vec![], Some("STOP"))]), StopReason::ToolUse);
    assert_eq!(
        reason(vec![chunk(calls(), None), chunk(vec![], Some("MAX_TOKENS"))]),
        StopReason::Length
    );
    assert_eq!(reason(vec![chunk(calls(), Some("MAX_TOKENS"))]), StopReason::Length);
    assert_eq!(
        reason(vec![chunk(vec![], Some("MAX_TOKENS")), chunk(calls(), None)]),
        StopReason::Length
    );
    assert_eq!(
        reason(vec![chunk(calls(), Some("MAX_TOKENS")), chunk(calls(), Some("STOP"))]),
        StopReason::ToolUse
    );
    assert_eq!(
        reason(vec![chunk(vec![], Some("MAX_TOKENS")), chunk(vec![], Some("STOP"))]),
        StopReason::Stop
    );
    let call = FunctionCall { name: String::new(), args: Json::Null };
    assert!(call.finish_reason_set_to_tool_use());
}

#[test]
fn google_limit_stands_beside_a_call() {
    let (mut stream, _) = GoogleStream::open(&model());
    let none = json::parse("{}").unwrap();
    gulp(&mut stream, chunk(vec![call_part("f", none)], Some("MAX_TOKENS")));
    assert_eq!(
        stream.finish(9),
        vec![AssistantMessageEvent::Done {
            reason: StopReason::Length,
            message: message(
                vec![call("call_1", "f", "{}")],
                "m-1",
                usage(0, 0, 0, 0, 0),
                StopReason::Length,
                None,
            ),
        }]
    );
}

#[test]
fn google_calls_are_numbered_from_one() {
    let (mut stream, _) = GoogleStream::open(&model());
    for _ in 0..11 {
        gulp(&mut stream, chunk(vec![call_part("look", Json::Null)], None));
    }
    match stream.finish(9).pop() {
        Some(AssistantMessageEvent::Done { message, .. }) => {
            let ids: Vec<String> = message
                .content
                .into_iter()
                .map(|c| match c {
                    Content::ToolCall { id, .. } => id,
                    other => panic!("{other:?}"),
                })
                .collect();
            let expected: Vec<String> = (1..12).map(|i| format!("call_{i}")).collect();
            assert_eq!(ids, expected);
        }
        other => panic!("{other:?}"),
    }
}

#[test]
fn giving_up_counts_before_a_broken_transport() {
    let cut = || "cut".to_string();
    assert_eq!(arrived::<SseEvent>(true, Err(cut())), Incoming::Cancelled);
    assert_eq!(arrived(true, Ok(Some(SseEvent::Ping))), Incoming::Cancelled);
    assert_eq!(arrived::<SseEvent>(false, Err(cut())), Incoming::Broken(cut()));
    assert_eq!(arrived(false, Ok(Some(SseEvent::Ping))), Incoming::Record(Some(SseEvent::Ping)));
    assert_eq!(arrived::<SseEvent>(false, Ok(None)), Incoming::Record(None));
}
