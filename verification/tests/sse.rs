use anthropic_messages::models::{ApiError, ContentItem, ResponseEvent, ResponseItem, TokenUsage};
use anthropic_messages::rate_limits::UsedPercent;
use anthropic_messages::sse::{
    describe_error, finish_tool_use, opening_reports, process_anthropic_sse, tool_use_call,
    tool_use_input,
    AnthropicContentBlock, AnthropicDelta, AnthropicErrorPayload, AnthropicMessage,
    AnthropicSseEvent, AnthropicStream, AnthropicUsage, SsePoll, ToolUseState,
};
use http::{HeaderMap, HeaderValue};
use serde_json::Value;

fn text_member(value: &Value, name: &str) -> Option<String> {
    value.get(name).and_then(|v| v.as_str()).map(|s| s.to_string())
}

fn usage(value: &Value) -> AnthropicUsage {
    let count = |name: &str| value.get(name).and_then(|v| v.as_i64());
    AnthropicUsage {
        input_tokens: count("input_tokens"),
        cache_creation_input_tokens: count("cache_creation_input_tokens"),
        cache_read_input_tokens: count("cache_read_input_tokens"),
        output_tokens: count("output_tokens"),
        total_tokens: count("total_tokens"),
    }
}

/// Decodes a well-formed event.
fn event(data: &str) -> Option<AnthropicSseEvent> {
    let value: Value = serde_json::from_str(data).ok()?;
    Some(AnthropicSseEvent {
        kind: text_member(&value, "type")?,
        index: value.get("index").and_then(|v| v.as_u64()).map(|n| n as usize),
        message: value.get("message").map(|m| AnthropicMessage {
            id: text_member(m, "id").expect("message id"),
            usage: m.get("usage").map(usage),
        }),
        content_block: value.get("content_block").map(|b| AnthropicContentBlock {
            kind: text_member(b, "type").expect("block type"),
            id: text_member(b, "id"),
            name: text_member(b, "name"),
            input: b.get("input").cloned(),
        }),
        delta: value.get("delta").map(|d| AnthropicDelta {
            kind: text_member(d, "type"),
            text: text_member(d, "text"),
            partial_json: text_member(d, "partial_json"),
        }),
        usage: value.get("usage").map(usage),
        error: value.get("error").map(|e| AnthropicErrorPayload {
            kind: text_member(e, "type"),
            code: text_member(e, "code"),
            message: text_member(e, "message"),
        }),
    })
}

fn polls(events: &[&str]) -> Vec<SsePoll> {
    events
        .iter()
        .map(|data| SsePoll::Event { data: data.to_string(), decoded: event(data) })
        .collect()
}

fn collect_events(events: &[&str]) -> Vec<Result<ResponseEvent, ApiError>> {
    let mut all = polls(events);
    all.push(SsePoll::Closed);
    process_anthropic_sse(all)
}

fn message(content: Vec<ContentItem>) -> ResponseItem {
    ResponseItem::Message { id: None, role: "assistant".to_string(), content }
}

fn stream_error(text: &str) -> Result<ResponseEvent, ApiError> {
    Err(ApiError::Stream(text.to_string()))
}

#[test]
fn text_only_stream_emits_item_added_delta_done_completed() {
    let events = collect_events(&[
        r#"{"type":"message_start","message":{"id":"msg-1"}}"#,
        r#"{"type":"content_block_start","index":0,"content_block":{"type":"text"}}"#,
        r#"{"type":"content_block_delta","index":0,"delta":{"type":"text_delta","text":"Hello"}}"#,
        r#"{"type":"content_block_stop","index":0}"#,
        r#"{"type":"message_stop","message":{"id":"msg-1"},"usage":{"input_tokens":10,"output_tokens":5,"total_tokens":15}}"#,
    ]);
    let mut saw_item_added = false;
    let mut saw_delta = false;
    let mut saw_done = false;
    let mut saw_completed = false;

    for ev in &events {
        match ev {
            Ok(ResponseEvent::OutputItemAdded(ResponseItem::Message { role, .. })) => {
                assert_eq!(role, "assistant");
                saw_item_added = true;
            }
            Ok(ResponseEvent::OutputTextDelta(delta)) => {
                assert_eq!(delta, "Hello");
                saw_delta = true;
            }
            Ok(ResponseEvent::OutputItemDone(ResponseItem::Message { role, content, .. })) => {
                assert_eq!(role, "assistant");
                assert_eq!(content.len(), 1);
                if let ContentItem::OutputText { text } = &content[0] {
                    assert_eq!(text, "Hello");
                } else {
                    panic!("expected output text content");
                }
                saw_done = true;
            }
            Ok(ResponseEvent::Completed { response_id, token_usage }) => {
                assert_eq!(response_id, "msg-1");
                let usage = token_usage.as_ref().expect("token usage");
                assert_eq!(usage.input_tokens, 10);
                assert_eq!(usage.output_tokens, 5);
                assert_eq!(usage.total_tokens, 15);
                saw_completed = true;
            }
            _ => {}
        }
    }

    assert!(saw_item_added);
    assert!(saw_delta);
    assert!(saw_done);
    assert!(saw_completed);
}

#[test]
fn tool_use_with_full_input_emits_function_call() {
    let events = collect_events(&[
        r#"{"type":"message_start","message":{"id":"msg-1"}}"#,
        r#"{"type":"content_block_start","index":0,"content_block":{"type":"tool_use","id":"call-1","name":"update_plan","input":{"explanation":"test plan","plan":[{"step":"do thing","status":"pending"}]}}}"#,
        r#"{"type":"content_block_stop","index":0}"#,
        r#"{"type":"message_stop","message":{"id":"msg-1"}}"#,
    ]);
    let mut saw_call = false;

    for ev in &events {
        if let Ok(ResponseEvent::OutputItemDone(ResponseItem::FunctionCall {
            name,
            call_id: cid,
            arguments,
            ..
        })) = ev
        {
            assert_eq!(name, "update_plan");
            assert_eq!(cid, "call-1");
            let parsed: Value = serde_json::from_str(arguments).expect("arguments json");
            let expected: Value = serde_json::from_str(
                r#"{"explanation":"test plan","plan":[{"step":"do thing","status":"pending"}]}"#,
            )
            .expect("expected json");
            assert_eq!(parsed, expected);
            saw_call = true;
        }
    }

    assert!(saw_call);
}

#[test]
fn tool_use_with_input_json_delta_is_assembled() {
    let events = collect_events(&[
        r#"{"type":"message_start","message":{"id":"msg-1"}}"#,
        r#"{"type":"content_block_start","index":0,"content_block":{"type":"tool_use","id":"call-1","name":"update_plan"}}"#,
        r#"{"type":"content_block_delta","index":0,"delta":{"type":"input_json_delta","partial_json":"{\"explanation\":\"test\",\"plan\":[{\"step\":\"do thing\",\"status\":\"pending\"}]}"}}"#,
        r#"{"type":"content_block_stop","index":0}"#,
        r#"{"type":"message_stop","message":{"id":"msg-1"}}"#,
    ]);
    let mut saw_call = false;

    for ev in &events {
        if let Ok(ResponseEvent::OutputItemDone(ResponseItem::FunctionCall {
            name,
            call_id: cid,
            arguments,
            ..
        })) = ev
        {
            assert_eq!(name, "update_plan");
            assert_eq!(cid, "call-1");
            let parsed: Value = serde_json::from_str(arguments).expect("arguments json");
            let expected: Value = serde_json::from_str(
                r#"{"explanation":"test","plan":[{"step":"do thing","status":"pending"}]}"#,
            )
            .expect("expected json");
            assert_eq!(parsed, expected);
            saw_call = true;
        }
    }

    assert!(saw_call);
}

#[test]
fn error_event_yields_stream_error() {
    let events = collect_events(&[
        r#"{"type":"error","error":{"type":"invalid_request_error","code":"bad_request","message":"something went wrong"}}"#,
    ]);
    assert!(
        matches!(
            events.first(),
            Some(Err(ApiError::Stream(msg))) if msg.contains("Anthropic error")
        ),
        "expected Anthropic stream error, got {events:?}",
    );
    assert_eq!(
        events,
        vec![stream_error(
            "Anthropic error (invalid_request_error bad_request): something went wrong"
        )]
    );
}

#[test]
fn deltas_join_into_the_done_message() {
    let events = collect_events(&[
        r#"{"type":"content_block_delta","delta":{"text":""}}"#,
        r#"{"type":"content_block_delta","delta":{"text":"Hel"}}"#,
        r#"{"type":"ping"}"#,
        r#"{"type":"content_block_delta","delta":{"text":"lo"}}"#,
        r#"{"type":"message_stop"}"#,
    ]);
    assert_eq!(
        events,
        vec![
            Ok(ResponseEvent::OutputItemAdded(message(vec![]))),
            Ok(ResponseEvent::OutputTextDelta("Hel".to_string())),
            Ok(ResponseEvent::OutputTextDelta("lo".to_string())),
            Ok(ResponseEvent::OutputItemDone(message(vec![ContentItem::OutputText {
                text: "Hello".to_string()
            }]))),
            Ok(ResponseEvent::Completed { response_id: String::new(), token_usage: None }),
        ]
    );
}

#[test]
fn a_second_message_starts_afresh() {
    let events = collect_events(&[
        r#"{"type":"content_block_delta","delta":{"text":"a"}}"#,
        r#"{"type":"message_stop","message":{"id":"first"}}"#,
        r#"{"type":"content_block_delta","delta":{"text":"b"}}"#,
        r#"{"type":"message_stop","message":{"id":"second"}}"#,
    ]);
    assert_eq!(events.len(), 8);
    assert_eq!(
        events[6],
        Ok(ResponseEvent::OutputItemDone(message(vec![ContentItem::OutputText {
            text: "b".to_string()
        }])))
    );
    // The first id that is known stays.
    assert_eq!(
        events[7],
        Ok(ResponseEvent::Completed { response_id: "first".to_string(), token_usage: None })
    );
}

#[test]
fn fragments_of_several_tool_calls_are_kept_apart() {
    let events = collect_events(&[
        r#"{"type":"content_block_start","index":1,"content_block":{"type":"tool_use","name":"one"}}"#,
        r#"{"type":"content_block_start","index":2,"content_block":{"type":"tool_use","id":"id-2"}}"#,
        r#"{"type":"content_block_delta","index":1,"delta":{"type":"input_json_delta","partial_json":"{\"a\":"}}"#,
        r#"{"type":"content_block_delta","index":2,"delta":{"type":"input_json_delta","partial_json":"[1"}}"#,
        r#"{"type":"content_block_delta","index":1,"delta":{"type":"input_json_delta","partial_json":" 1}"}}"#,
        r#"{"type":"content_block_delta","index":2,"delta":{"type":"input_json_delta","partial_json":", 2]"}}"#,
        r#"{"type":"content_block_delta","index":2,"delta":{"type":"text_delta","partial_json":"x"}}"#,
        r#"{"type":"content_block_stop","index":2}"#,
        r#"{"type":"content_block_stop","index":2}"#,
        r#"{"type":"content_block_stop","index":1}"#,
        r#"{"type":"message_stop"}"#,
    ]);
    assert_eq!(
        events[..2],
        [
            Ok(ResponseEvent::OutputItemDone(ResponseItem::FunctionCall {
                id: None,
                name: String::new(),
                arguments: "[1,2]".to_string(),
                call_id: "id-2".to_string(),
            })),
            Ok(ResponseEvent::OutputItemDone(ResponseItem::FunctionCall {
                id: None,
                name: "one".to_string(),
                arguments: r#"{"a":1}"#.to_string(),
                call_id: "tool-call-1".to_string(),
            })),
        ]
    );
    assert_eq!(events.len(), 3);
}

#[test]
fn a_tool_call_without_input_has_null_arguments() {
    let state = ToolUseState {
        id: Some("c".to_string()),
        name: None,
        input: None,
        partial_json: String::new(),
    };
    assert_eq!(
        finish_tool_use(0, state),
        Ok(ResponseEvent::OutputItemDone(ResponseItem::FunctionCall {
            id: None,
            name: String::new(),
            arguments: "null".to_string(),
            call_id: "c".to_string(),
        }))
    );
}

#[test]
fn an_unannounced_tool_call_is_dropped() {
    let events = collect_events(&[
        r#"{"type":"content_block_delta","index":0,"delta":{"type":"input_json_delta","partial_json":"{"}}"#,
        r#"{"type":"content_block_stop","index":0}"#,
        r#"{"type":"message_stop"}"#,
    ]);
    assert_eq!(events.len(), 1);
}

#[test]
fn fragments_before_the_announcement_are_kept() {
    let events = collect_events(&[
        r#"{"type":"content_block_delta","index":0,"delta":{"type":"input_json_delta","partial_json":"[]"}}"#,
        r#"{"type":"content_block_start","index":0,"content_block":{"type":"tool_use","id":"x","name":"n","input":{"ignored":true}}}"#,
        r#"{"type":"content_block_stop","index":0}"#,
    ]);
    assert!(matches!(
        &events[0],
        Ok(ResponseEvent::OutputItemDone(ResponseItem::FunctionCall { arguments, .. })) if arguments == "[]"
    ));
    assert_eq!(events[1], stream_error("stream closed before message_stop"));
}

#[test]
fn fragments_that_are_no_json_end_the_stream() {
    let events = collect_events(&[
        r#"{"type":"content_block_start","index":0,"content_block":{"type":"tool_use","id":"x","name":"n"}}"#,
        r#"{"type":"content_block_delta","index":0,"delta":{"type":"input_json_delta","partial_json":"{"}}"#,
        r#"{"type":"content_block_stop","index":0}"#,
        r#"{"type":"message_stop"}"#,
    ]);
    let reason = serde_json::from_str::<Value>("{").expect_err("no json").to_string();
    assert_eq!(
        events,
        vec![stream_error(&format!("failed to parse tool_use input_json_delta: {reason}"))]
    );
}

#[test]
fn settled_inputs() {
    let seven = Value::from(7);
    assert_eq!(tool_use_input(Some(seven.clone()), None), Ok(seven.clone()));
    assert_eq!(tool_use_input(None, None), Ok(Value::Null));
    assert_eq!(tool_use_input(Some(Value::Null), Some(Ok(seven.clone()))), Ok(seven));
    assert_eq!(
        tool_use_input(None, Some(Err("why".to_string()))),
        Err(ApiError::Stream("failed to parse tool_use input_json_delta: why".to_string()))
    );
}

#[test]
fn arguments_that_do_not_print_are_an_error() {
    assert_eq!(
        tool_use_call(3, None, None, Err("why".to_string())),
        stream_error("failed to serialize tool_use arguments: why")
    );
}

#[test]
fn usage_is_the_latest_reported() {
    let events = collect_events(&[
        r#"{"type":"message_start","message":{"id":"m","usage":{"input_tokens":3,"cache_creation_input_tokens":2,"cache_read_input_tokens":5}}}"#,
        r#"{"type":"message_delta","message":{"id":"other","usage":{"output_tokens":1}},"usage":{"input_tokens":10,"output_tokens":5}}"#,
        r#"{"type":"message_stop"}"#,
    ]);
    assert_eq!(
        events,
        vec![Ok(ResponseEvent::Completed {
            response_id: "m".to_string(),
            token_usage: Some(TokenUsage {
                input_tokens: 10,
                cached_input_tokens: 0,
                output_tokens: 5,
                reasoning_output_tokens: 0,
                total_tokens: 15,
            }),
        })]
    );
}

#[test]
fn usage_sums_are_saturating() {
    let usage = AnthropicUsage {
        input_tokens: Some(3),
        cache_creation_input_tokens: Some(i64::MAX),
        cache_read_input_tokens: Some(5),
        output_tokens: None,
        total_tokens: None,
    };
    let sum = TokenUsage::from(usage);
    assert_eq!(sum.cached_input_tokens, i64::MAX);
    assert_eq!(sum.total_tokens, i64::MAX);
    let low = TokenUsage::from(AnthropicUsage { input_tokens: Some(i64::MIN), cache_creation_input_tokens: Some(-1), ..usage });
    assert_eq!(low.cached_input_tokens, 4);
    let lowest = TokenUsage::from(AnthropicUsage {
        input_tokens: Some(i64::MIN),
        cache_creation_input_tokens: Some(-6),
        ..usage
    });
    assert_eq!(lowest.total_tokens, i64::MIN);
    let given = TokenUsage::from(AnthropicUsage { total_tokens: Some(1), ..usage });
    assert_eq!(given.total_tokens, 1);
}

#[test]
fn blank_and_undecodable_data_is_ignored() {
    let mut all = vec![
        SsePoll::Event { data: " \n".to_string(), decoded: event(r#"{"type":"message_stop"}"#) },
        SsePoll::Event { data: "not json".to_string(), decoded: event("not json") },
    ];
    all.append(&mut polls(&[r#"{"type":"message_stop"}"#]));
    all.push(SsePoll::Closed);
    assert_eq!(process_anthropic_sse(all).len(), 1);
}

#[test]
fn a_stream_that_closes_early_is_an_error() {
    assert_eq!(collect_events(&[]), vec![stream_error("stream closed before message_stop")]);
}

#[test]
fn failures_end_the_stream() {
    assert_eq!(
        process_anthropic_sse(vec![SsePoll::Failed("broken pipe".to_string()), SsePoll::Closed]),
        vec![stream_error("broken pipe")]
    );
    assert_eq!(
        process_anthropic_sse(vec![SsePoll::TimedOut, SsePoll::Closed]),
        vec![stream_error("idle timeout waiting for Anthropic SSE")]
    );
}

#[test]
fn nothing_follows_an_error() {
    let mut stream = AnthropicStream::new();
    let step = stream.on_event(event(r#"{"type":"error"}"#).expect("event"));
    assert!(step.done);
    assert_eq!(step.reports, vec![stream_error("Anthropic error: unknown Anthropic error")]);
    let quiet = stream.on_poll(SsePoll::Event { data: String::new(), decoded: None });
    assert!(!quiet.done && quiet.reports.is_empty());
    let all = collect_events(&[r#"{"type":"error"}"#, r#"{"type":"message_stop"}"#]);
    assert_eq!(all.len(), 1);
}

#[test]
fn error_descriptions() {
    let payload = |kind: Option<&str>, code: Option<&str>, message: Option<&str>| {
        Some(AnthropicErrorPayload {
            kind: kind.map(|s| s.to_string()),
            code: code.map(|s| s.to_string()),
            message: message.map(|s| s.to_string()),
        })
    };
    assert_eq!(describe_error(None), "Anthropic error: unknown Anthropic error");
    assert_eq!(describe_error(payload(None, None, Some("m"))), "Anthropic error: m");
    assert_eq!(describe_error(payload(Some("k"), None, Some("m"))), "Anthropic error (k ): m");
    assert_eq!(
        describe_error(payload(None, Some("c"), None)),
        "Anthropic error ( c): unknown Anthropic error"
    );
    assert_eq!(describe_error(payload(Some(""), Some(""), Some("m"))), "Anthropic error: m");
}

fn percent(used: UsedPercent) -> f64 {
    match used {
        UsedPercent::Bits(bits) => f64::from_bits(bits),
        UsedPercent::Share { used, limit } => (used as f64 / limit as f64) * 100.0,
    }
}

#[test]
fn anthropic_rate_limit_headers_emit_event() {
    let mut headers = HeaderMap::new();
    headers.insert("content-type", HeaderValue::from_static("text/event-stream"));
    headers.insert("anthropic-ratelimit-requests-limit", HeaderValue::from_static("1000"));
    headers.insert("anthropic-ratelimit-requests-remaining", HeaderValue::from_static("750"));
    headers.insert("anthropic-ratelimit-tokens-limit", HeaderValue::from_static("100000"));
    headers.insert("anthropic-ratelimit-tokens-remaining", HeaderValue::from_static("80000"));

    let mut events = opening_reports(&headers);
    events.append(&mut collect_events(&[
        r#"{"type":"message_start","message":{"id":"msg-1"}}"#,
        r#"{"type":"content_block_start","index":0,"content_block":{"type":"text","text":""}}"#,
        r#"{"type":"content_block_delta","index":0,"delta":{"type":"text_delta","text":"Hello"}}"#,
        r#"{"type":"content_block_stop","index":0}"#,
        r#"{"type":"message_delta","delta":{"stop_reason":"end_turn"},"usage":{"input_tokens":10,"output_tokens":5}}"#,
        r#"{"type":"message_stop","message":{"id":"msg-1"}}"#,
    ]));

    let mut saw_rate_limits = false;
    for event in &events {
        if let Ok(ResponseEvent::RateLimits(snapshot)) = event {
            // Requests: 25% used (1000 - 750) / 1000
            let primary = snapshot.primary.as_ref().expect("primary window");
            let used = percent(primary.used_percent);
            assert!((used - 25.0).abs() < 0.1, "expected ~25% requests used, got {used}");
            // Tokens: 20% used (100000 - 80000) / 100000
            let secondary = snapshot.secondary.as_ref().expect("secondary window");
            let used = percent(secondary.used_percent);
            assert!((used - 20.0).abs() < 0.1, "expected ~20% tokens used, got {used}");
            saw_rate_limits = true;
        }
    }
    assert!(saw_rate_limits, "expected RateLimits event from response headers");
    assert_eq!(events.len(), 5);
}

#[test]
fn nothing_opens_a_response_without_rate_limits() {
    assert_eq!(opening_reports(&HeaderMap::new()), vec![]);
}

#[test]
fn ignored_outcomes_change_nothing() {
    let delta = r#"{"type":"content_block_delta","delta":{"text":"a"}}"#;
    let stop = r#"{"type":"message_stop"}"#;
    assert_eq!(
        collect_events(&[
            r#"{"type":"ping"}"#,
            delta,
            "no json",
            r#"{"type":"message_delta","message":{"id":"m"},"delta":{"text":"b"}}"#,
            stop,
            " ",
        ]),
        collect_events(&[delta, stop])
    );
}
