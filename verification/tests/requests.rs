use anthropic_messages::anthropic::{
    build_anthropic_messages_body, compute_max_tokens, function_output_to_tool_result_content,
    items_to_anthropic_messages, parse_data_url, response_items_to_anthropic_messages,
    tool_use_to_message,
};
use anthropic_messages::models::{
    ContentItem, FunctionCallOutputContentItem, FunctionCallOutputPayload, ModelFamily, ResponseItem,
};
use anthropic_messages::prompt::Prompt;
use serde_json::Value;

fn sonnet() -> ModelFamily {
    ModelFamily {
        slug: "sonnet-4.5".to_string(),
        base_instructions: "You are a coding agent.".to_string(),
        needs_special_apply_patch_instructions: false,
        supports_parallel_tool_calls: true,
        context_window: Some(200_000),
        auto_compact_token_limit: None,
    }
}

fn instructions(prompt: &Prompt, model_family: &ModelFamily) -> String {
    prompt.get_full_instructions(model_family, "patch instructions")
}

fn body(prompt: &Prompt, tools_json: Vec<Value>) -> Value {
    let model_family = sonnet();
    let instructions = instructions(prompt, &model_family);
    build_anthropic_messages_body(prompt, &model_family, instructions, tools_json)
        .expect("anthropic body")
}

fn messages(body: &Value) -> Vec<Value> {
    body.get("messages").and_then(|v| v.as_array()).cloned().unwrap_or_default()
}

fn json(text: &str) -> Value {
    serde_json::from_str(text).expect("json")
}

fn message(role: &str, content: Vec<ContentItem>) -> ResponseItem {
    ResponseItem::Message { id: None, role: role.to_string(), content }
}

fn input_text(text: &str) -> ContentItem {
    ContentItem::InputText { text: text.to_string() }
}

fn call(call_id: &str, arguments: &str) -> ResponseItem {
    ResponseItem::FunctionCall {
        id: None,
        name: "update_plan".to_string(),
        arguments: arguments.to_string(),
        call_id: call_id.to_string(),
    }
}

fn payload(content: &str) -> FunctionCallOutputPayload {
    FunctionCallOutputPayload {
        content: content.to_string(),
        content_items: None,
        success: Some(true),
    }
}

fn output(call_id: &str, content: &str) -> ResponseItem {
    ResponseItem::FunctionCallOutput { call_id: call_id.to_string(), output: payload(content) }
}

fn result(call_id: &str, content: &str) -> Value {
    json(&format!(
        r#"{{"role":"user","content":[{{"type":"tool_result","tool_use_id":"{call_id}","content":[{{"type":"text","text":"{content}"}}]}}]}}"#
    ))
}

fn tool_use(call_id: &str, input: &str) -> Value {
    json(&format!(
        r#"{{"role":"assistant","content":[{{"type":"tool_use","id":"{call_id}","name":"update_plan","input":{input}}}]}}"#
    ))
}

#[test]
fn anthropic_body_includes_basic_fields() {
    let mut prompt = Prompt::default();
    prompt.input.push(message("user", vec![input_text("Hello")]));

    let model_family = sonnet();
    let instructions = instructions(&prompt, &model_family);
    let tools_json: Vec<Value> = Vec::new();
    let body =
        build_anthropic_messages_body(&prompt, &model_family, instructions.clone(), tools_json)
            .expect("anthropic body");

    assert_eq!(
        body.get("model").and_then(|v| v.as_str()),
        Some("sonnet-4.5")
    );
    assert_eq!(
        body.get("system").and_then(|v| v.as_str()),
        Some(instructions.as_str())
    );
    assert_eq!(body.get("stream").and_then(|v| v.as_bool()), Some(true));

    let max_tokens = body.get("max_tokens").and_then(|v| v.as_i64()).unwrap_or(0);
    assert!(max_tokens > 0);
    assert!(max_tokens <= 64_000);

    let messages = messages(&body);
    assert_eq!(messages.len(), 1);
    let first = messages.first().cloned().unwrap();
    assert_eq!(first.get("role").and_then(|v| v.as_str()), Some("user"));
}

#[test]
fn anthropic_tool_use_and_result_are_adjacent() {
    let mut prompt = Prompt::default();
    prompt.input.push(message("user", vec![input_text("Run a tool and continue")]));

    let call_id = "toolu_01ABC";
    prompt.input.push(call(call_id, r#"{"step":"one"}"#));

    // Assistant text may be recorded between the call and its output; the tool_result still
    // follows the tool_use immediately.
    prompt.input.push(message(
        "assistant",
        vec![ContentItem::OutputText { text: "Running the plan tool...".to_string() }],
    ));

    prompt.input.push(output(call_id, "ok"));

    let messages = messages(&body(&prompt, Vec::new()));

    assert!(
        messages.len() >= 3,
        "expected at least user, tool_use, tool_result messages"
    );

    assert_eq!(
        messages[0].get("role").and_then(|v| v.as_str()),
        Some("user")
    );

    let second = &messages[1];
    assert_eq!(
        second.get("role").and_then(|v| v.as_str()),
        Some("assistant")
    );
    let second_blocks = second
        .get("content")
        .and_then(|v| v.as_array())
        .cloned()
        .unwrap_or_default();
    assert!(
        second_blocks.iter().any(|block| {
            block.get("type").and_then(|t| t.as_str()) == Some("tool_use")
                && block.get("id").and_then(|v| v.as_str()) == Some(call_id)
        }),
        "expected tool_use block with the call id in second message"
    );

    let third = &messages[2];
    assert_eq!(third.get("role").and_then(|v| v.as_str()), Some("user"));
    let third_blocks = third
        .get("content")
        .and_then(|v| v.as_array())
        .cloned()
        .unwrap_or_default();
    assert!(
        third_blocks.iter().any(|block| {
            block.get("type").and_then(|t| t.as_str()) == Some("tool_result")
                && block.get("tool_use_id").and_then(|v| v.as_str()) == Some(call_id)
        }),
        "expected tool_result block referencing the same call id in third message"
    );
    assert_eq!(messages.len(), 4);
}

fn texts(blocks: &[Value]) -> Vec<String> {
    blocks
        .iter()
        .filter_map(|block| {
            if block.get("type").and_then(|t| t.as_str()) == Some("text") {
                block.get("text").and_then(|t| t.as_str()).map(ToString::to_string)
            } else {
                None
            }
        })
        .collect()
}

#[test]
fn anthropic_omits_whitespace_only_message_text_blocks() {
    let mut prompt = Prompt::default();
    prompt.input.push(message("user", vec![input_text("   "), input_text("kept")]));

    let messages = messages(&body(&prompt, Vec::new()));
    assert_eq!(messages.len(), 1);

    let content_blocks = messages[0]
        .get("content")
        .and_then(|v| v.as_array())
        .cloned()
        .unwrap_or_default();

    assert_eq!(texts(&content_blocks), vec!["kept".to_string()]);
}

#[test]
fn anthropic_tool_result_does_not_emit_whitespace_only_text_blocks() {
    let mut prompt = Prompt::default();
    let call_id = "tool_01EMPTY";
    prompt.input.push(output(call_id, "   "));

    let messages = messages(&body(&prompt, Vec::new()));
    assert_eq!(messages.len(), 1);

    let content_blocks = messages[0]
        .get("content")
        .and_then(|v| v.as_array())
        .cloned()
        .unwrap_or_default();
    assert_eq!(content_blocks.len(), 1);

    let tool_result = &content_blocks[0];
    assert_eq!(
        tool_result.get("type").and_then(|t| t.as_str()),
        Some("tool_result")
    );

    let tool_result_content = tool_result
        .get("content")
        .and_then(|v| v.as_array())
        .cloned()
        .unwrap_or_default();

    assert!(
        texts(&tool_result_content).iter().all(|t| !t.trim().is_empty()),
        "expected no whitespace-only text blocks in tool_result content"
    );
}

#[test]
fn anthropic_image_base64_format() {
    let mut prompt = Prompt::default();
    prompt.input.push(message(
        "user",
        vec![ContentItem::InputImage {
            image_url: "data:image/png;base64,iVBORw0KGgo=".to_string(),
        }],
    ));

    let body = body(&prompt, Vec::new());
    let messages = body
        .get("messages")
        .and_then(|v| v.as_array())
        .expect("messages array");
    let content = messages[0]
        .get("content")
        .and_then(|v| v.as_array())
        .expect("content array");
    let image_block = &content[0];

    assert_eq!(
        image_block.get("type").and_then(|v| v.as_str()),
        Some("image")
    );
    let source = image_block.get("source").expect("source object");
    assert_eq!(source.get("type").and_then(|v| v.as_str()), Some("base64"));
    assert_eq!(
        source.get("media_type").and_then(|v| v.as_str()),
        Some("image/png")
    );
    assert_eq!(
        source.get("data").and_then(|v| v.as_str()),
        Some("iVBORw0KGgo=")
    );
}

#[test]
fn anthropic_image_url_format() {
    let mut prompt = Prompt::default();
    prompt.input.push(message(
        "user",
        vec![ContentItem::InputImage {
            image_url: "https://example.com/image.png".to_string(),
        }],
    ));

    let body = body(&prompt, Vec::new());
    let messages = body
        .get("messages")
        .and_then(|v| v.as_array())
        .expect("messages array");
    let content = messages[0]
        .get("content")
        .and_then(|v| v.as_array())
        .expect("content array");
    let image_block = &content[0];

    assert_eq!(
        image_block.get("type").and_then(|v| v.as_str()),
        Some("image")
    );
    let source = image_block.get("source").expect("source object");
    assert_eq!(source.get("type").and_then(|v| v.as_str()), Some("url"));
    assert_eq!(
        source.get("url").and_then(|v| v.as_str()),
        Some("https://example.com/image.png")
    );
}

#[test]
fn whole_body() {
    let mut prompt = Prompt::default();
    prompt.input.push(message("user", vec![input_text("hi")]));
    assert_eq!(
        body(&prompt, Vec::new()),
        json(
            r#"{"model":"sonnet-4.5","system":"You are a coding agent.",
                "messages":[{"role":"user","content":[{"type":"text","text":"hi"}]}],
                "max_tokens":50000,"stream":true}"#
        )
    );
}

#[test]
fn tools_and_tool_choice() {
    let prompt = Prompt::default();
    let tool = json(r#"{"name":"update_plan"}"#);
    let with_tools = body(&prompt, vec![tool.clone()]);
    assert_eq!(with_tools.get("tools"), Some(&Value::Array(vec![tool.clone()])));
    assert_eq!(with_tools.get("tool_choice"), Some(&json(r#"{"type":"auto"}"#)));

    let serial = ModelFamily { supports_parallel_tool_calls: false, ..sonnet() };
    let no_choice =
        build_anthropic_messages_body(&prompt, &serial, String::new(), vec![tool]).expect("body");
    assert!(no_choice.get("tools").is_some());
    assert_eq!(no_choice.get("tool_choice"), None);

    let without_tools = body(&prompt, Vec::new());
    assert_eq!(without_tools.get("tools"), None);
    assert_eq!(without_tools.get("tool_choice"), None);
}

#[test]
fn max_tokens_is_a_capped_quarter_of_the_limit() {
    let limit = |auto: Option<i64>, window: Option<i64>| {
        compute_max_tokens(&ModelFamily {
            auto_compact_token_limit: auto,
            context_window: window,
            ..sonnet()
        })
    };
    assert_eq!(limit(None, None), 50_000);
    assert_eq!(limit(None, Some(100_000)), 25_000);
    assert_eq!(limit(Some(1_003), Some(100_000)), 250);
    assert_eq!(limit(Some(255_999), None), 63_999);
    assert_eq!(limit(Some(256_000), None), 64_000);
    assert_eq!(limit(Some(i64::MAX), None), 64_000);
    assert_eq!(limit(Some(4), None), 1);
    assert_eq!(limit(Some(3), None), 1);
    assert_eq!(limit(Some(0), None), 1);
    assert_eq!(limit(Some(i64::MIN), None), 1);
}

#[test]
fn data_urls() {
    let parts = |media_type: &str, data: &str| Some((media_type.to_string(), data.to_string()));
    assert_eq!(parse_data_url("data:image/png;base64,AA=="), parts("image/png", "AA=="));
    assert_eq!(parse_data_url("data:;base64,a,b"), parts("", "a,b"));
    assert_eq!(parse_data_url("data:image/png,AA"), None);
    assert_eq!(parse_data_url("data:image/png;base64"), None);
    assert_eq!(parse_data_url("image/png;base64,AA"), None);
}

#[test]
fn malformed_data_urls_are_left_out() {
    let input = vec![message(
        "user",
        vec![ContentItem::InputImage { image_url: "data:text/plain,hi".to_string() }],
    )];
    assert!(items_to_anthropic_messages(&input).is_empty());
}

#[test]
fn transcript_is_preserved() {
    let input = vec![
        output("a", "early"),
        call("a", "{}"),
        call("b", "not json"),
        call("b", "2"),
        message("user", vec![input_text("\t")]),
        message("user", vec![input_text("between")]),
        output("b", "one"),
        output("b", "two"),
        output("a", "late"),
        ResponseItem::Other,
    ];
    assert_eq!(
        items_to_anthropic_messages(&input),
        vec![
            result("a", "early"),
            tool_use("a", "{}"),
            tool_use("b", "\"not json\""),
            result("b", "one"),
            tool_use("b", "2"),
            json(r#"{"role":"user","content":[{"type":"text","text":"between"}]}"#),
            result("b", "two"),
            result("a", "late"),
        ]
    );
}

#[test]
fn a_result_is_stated_once_it_is_there() {
    let mut prompt = Prompt::default();
    let arguments = r#"{"explanation":"test plan","plan":[{"status":"pending","step":"do thing"}]}"#;
    prompt.input.push(message("user", vec![input_text("update the plan and continue")]));
    prompt.input.push(call("update-plan-call", arguments));

    let first = response_items_to_anthropic_messages(&prompt);
    assert_eq!(first.len(), 2);
    assert_eq!(first[1], tool_use("update-plan-call", arguments));

    prompt.input.push(output("update-plan-call", "ok"));
    let second = response_items_to_anthropic_messages(&prompt);
    assert_eq!(second.len(), 3);
    assert_eq!(second[2], result("update-plan-call", "ok"));
}

#[test]
fn arguments_that_are_no_json_stay_text() {
    let given = tool_use_to_message("n", "raw", "c", Err("why".to_string()));
    assert_eq!(given["content"][0]["input"], Value::String("raw".to_string()));
    let read = tool_use_to_message("n", "raw", "c", Ok(Value::from(5)));
    assert_eq!(read["content"][0]["input"], Value::from(5));
    assert_eq!(read["content"][0]["name"], Value::String("n".to_string()));
}

#[test]
fn tool_result_content() {
    let text = |s: &str| FunctionCallOutputContentItem::InputText { text: s.to_string() };
    let pieces = |content: &str, items: Vec<FunctionCallOutputContentItem>| {
        function_output_to_tool_result_content(&FunctionCallOutputPayload {
            content: content.to_string(),
            content_items: Some(items),
            success: None,
        })
    };
    assert_eq!(
        function_output_to_tool_result_content(&payload("ok")),
        json(r#"[{"type":"text","text":"ok"}]"#)
    );
    assert_eq!(function_output_to_tool_result_content(&payload(" \n")), json("[]"));
    assert_eq!(
        pieces(
            "whole",
            vec![
                text(" "),
                text("a"),
                FunctionCallOutputContentItem::InputImage { image_url: "data:x".to_string() },
            ]
        ),
        json(r#"[{"type":"text","text":"a"},{"type":"image_url","image_url":{"url":"data:x"}}]"#)
    );
    assert_eq!(pieces("whole", vec![text(" ")]), json(r#"[{"type":"text","text":"whole"}]"#));
    assert_eq!(pieces("", vec![]), json("[]"));
}

#[test]
fn silent_items_do_not_matter() {
    let said = message("user", vec![input_text("hi")]);
    let with = vec![
        call("a", "{}"),
        ResponseItem::Other,
        message("user", vec![input_text(" ")]),
        output("a", "ok"),
        said.clone(),
    ];
    let without = vec![call("a", "{}"), output("a", "ok"), said];
    assert_eq!(items_to_anthropic_messages(&with), items_to_anthropic_messages(&without));
}

#[test]
fn unrelated_parts_map_separately() {
    let first = vec![call("a", "1"), message("user", vec![input_text("x")]), output("a", "one")];
    let second = vec![output("b", "early"), call("b", "2"), output("b", "late")];
    let mut all = first.clone();
    all.extend(second.clone());
    let mut apart = items_to_anthropic_messages(&first);
    apart.extend(items_to_anthropic_messages(&second));
    assert_eq!(items_to_anthropic_messages(&all), apart);
}
