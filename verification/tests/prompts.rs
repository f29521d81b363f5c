use anthropic_messages::models::{FunctionCallOutputPayload, ModelFamily, ResponseItem};
use anthropic_messages::prompt::Prompt;
use anthropic_messages::shell_output::{
    build_structured_output, is_shell_tool_name, parse_structured_shell_output,
    reserialize_shell_outputs, strip_total_output_header, ExecOutputJson, ExecOutputMetadataJson,
};
use anthropic_messages::tools::{FreeformTool, FreeformToolFormat, ResponsesApiTool, ToolSpec};
use serde_json::Value;

const APPLY_PATCH_TOOL_INSTRUCTIONS: &str = "## `apply_patch`\n\nUse the `apply_patch` command.";

fn model_family(slug: &str, needs_special_apply_patch_instructions: bool) -> ModelFamily {
    ModelFamily {
        slug: slug.to_string(),
        base_instructions: format!("base instructions of {slug}"),
        needs_special_apply_patch_instructions,
        supports_parallel_tool_calls: false,
        context_window: None,
        auto_compact_token_limit: None,
    }
}

fn freeform(name: &str) -> ToolSpec {
    ToolSpec::Freeform(FreeformTool {
        name: name.to_string(),
        description: String::new(),
        format: FreeformToolFormat {
            kind: "grammar".to_string(),
            syntax: "lark".to_string(),
            definition: "start: /.+/".to_string(),
        },
    })
}

fn function(name: &str) -> ToolSpec {
    ToolSpec::Function(ResponsesApiTool {
        name: name.to_string(),
        description: String::new(),
        strict: false,
        parameters: Value::Null,
    })
}

fn shell_result(output: &str) -> Option<ExecOutputJson> {
    Some(ExecOutputJson {
        output: output.to_string(),
        metadata: ExecOutputMetadataJson { exit_code: 0, duration_seconds: "0.5".to_string() },
    })
}

fn function_call(name: &str, call_id: &str) -> ResponseItem {
    ResponseItem::FunctionCall {
        id: None,
        name: name.to_string(),
        arguments: "{}".to_string(),
        call_id: call_id.to_string(),
    }
}

fn function_output(call_id: &str, content: &str) -> ResponseItem {
    ResponseItem::FunctionCallOutput {
        call_id: call_id.to_string(),
        output: FunctionCallOutputPayload {
            content: content.to_string(),
            content_items: None,
            success: Some(true),
        },
    }
}

fn custom_call(name: &str, call_id: &str) -> ResponseItem {
    ResponseItem::CustomToolCall {
        id: None,
        status: None,
        call_id: call_id.to_string(),
        name: name.to_string(),
        input: "*** Begin Patch".to_string(),
    }
}

fn custom_output(call_id: &str, output: &str) -> ResponseItem {
    ResponseItem::CustomToolCallOutput { call_id: call_id.to_string(), output: output.to_string() }
}

fn local_shell(id: Option<&str>, call_id: Option<&str>) -> ResponseItem {
    ResponseItem::LocalShellCall {
        id: id.map(|s| s.to_string()),
        call_id: call_id.map(|s| s.to_string()),
        rest: Value::Null,
    }
}

const STRUCTURED: &str = "Exit code: 0\nWall time: 0.5 seconds\nOutput:\nhi";

struct InstructionsTestCase {
    slug: &'static str,
    expects_apply_patch_instructions: bool,
}

#[test]
fn get_full_instructions_no_user_content() {
    let prompt = Prompt { ..Default::default() };
    let test_cases = vec![
        InstructionsTestCase { slug: "gpt-3.5", expects_apply_patch_instructions: true },
        InstructionsTestCase { slug: "gpt-4.1", expects_apply_patch_instructions: true },
        InstructionsTestCase { slug: "gpt-4o", expects_apply_patch_instructions: true },
        InstructionsTestCase { slug: "gpt-5", expects_apply_patch_instructions: true },
        InstructionsTestCase { slug: "gpt-5.1", expects_apply_patch_instructions: false },
        InstructionsTestCase { slug: "codex-mini-latest", expects_apply_patch_instructions: true },
        InstructionsTestCase { slug: "gpt-oss:120b", expects_apply_patch_instructions: false },
        InstructionsTestCase { slug: "gpt-5.1-codex", expects_apply_patch_instructions: false },
        InstructionsTestCase { slug: "gpt-5.1-codex-max", expects_apply_patch_instructions: false },
    ];
    for test_case in test_cases {
        let model_family =
            model_family(test_case.slug, test_case.expects_apply_patch_instructions);
        let expected = if test_case.expects_apply_patch_instructions {
            format!(
                "{}\n{}",
                model_family.clone().base_instructions,
                APPLY_PATCH_TOOL_INSTRUCTIONS
            )
        } else {
            model_family.clone().base_instructions
        };

        let full = prompt.get_full_instructions(&model_family, APPLY_PATCH_TOOL_INSTRUCTIONS);
        assert_eq!(full, expected);
    }
}

#[test]
fn an_offered_patch_tool_needs_no_instructions() {
    let model = model_family("gpt-4.1", true);
    for tool in [freeform("apply_patch"), function("apply_patch")] {
        let prompt = Prompt { tools: vec![ToolSpec::WebSearch {}, tool], ..Default::default() };
        assert_eq!(
            prompt.get_full_instructions(&model, APPLY_PATCH_TOOL_INSTRUCTIONS),
            model.base_instructions
        );
    }
    let other = Prompt { tools: vec![function("shell"), ToolSpec::LocalShell {}], ..Default::default() };
    assert!(other
        .get_full_instructions(&model, APPLY_PATCH_TOOL_INSTRUCTIONS)
        .ends_with(APPLY_PATCH_TOOL_INSTRUCTIONS));
}

#[test]
fn an_override_is_used_as_it_is() {
    let prompt = Prompt {
        base_instructions_override: Some("mine".to_string()),
        ..Default::default()
    };
    let model = model_family("gpt-4.1", true);
    assert_eq!(prompt.get_full_instructions(&model, APPLY_PATCH_TOOL_INSTRUCTIONS), "mine");
}

#[test]
fn tool_names() {
    assert_eq!(function("update_plan").name(), "update_plan");
    assert_eq!(freeform("apply_patch").name(), "apply_patch");
    assert_eq!(ToolSpec::LocalShell {}.name(), "local_shell");
    assert_eq!(ToolSpec::WebSearch {}.name(), "web_search");
    assert!(is_shell_tool_name("shell"));
    assert!(is_shell_tool_name("container.exec"));
    assert!(!is_shell_tool_name("local_shell"));
}

#[test]
fn total_headers_come_off() {
    assert_eq!(strip_total_output_header("Total output lines: 12\n\nbody"), Some(("body", 12)));
    assert_eq!(strip_total_output_header("Total output lines: 12\nbody"), Some(("body", 12)));
    assert_eq!(strip_total_output_header("Total output lines: +1\n"), Some(("", 1)));
    assert_eq!(strip_total_output_header("Total output lines: 12\n\n\nbody"), Some(("\nbody", 12)));
    assert_eq!(strip_total_output_header("Total output lines: x\nbody"), None);
    assert_eq!(strip_total_output_header("Total output lines: 4294967296\n"), None);
    assert_eq!(strip_total_output_header("Total output lines: 12"), None);
    assert_eq!(strip_total_output_header("body"), None);
}

#[test]
fn structured_outputs() {
    let parsed = ExecOutputJson {
        output: "Total output lines: 3\n\na\nb\nc".to_string(),
        metadata: ExecOutputMetadataJson { exit_code: -7, duration_seconds: "1.25".to_string() },
    };
    assert_eq!(
        build_structured_output(&parsed),
        "Exit code: -7\nWall time: 1.25 seconds\nTotal output lines: 3\nOutput:\na\nb\nc"
    );
    assert_eq!(parse_structured_shell_output("{}", &shell_result("hi")).as_deref(), Some(STRUCTURED));
    assert_eq!(parse_structured_shell_output("{}", &None), None);
    assert_eq!(parse_structured_shell_output("", &shell_result("hi")), None);
    assert_eq!(parse_structured_shell_output(" \"{\"", &shell_result("hi")), None);
    assert_eq!(parse_structured_shell_output(" \t\r\n[", &shell_result("hi")).as_deref(), Some(STRUCTURED));
    assert_eq!(parse_structured_shell_output(STRUCTURED, &shell_result("hi")), None);
}

#[test]
fn shell_outputs_are_rewritten_for_the_freeform_patch_tool() {
    let input = vec![function_call("shell", "c"), function_output("c", "{json}")];
    let prompt = Prompt {
        input: input.clone(),
        shell_outputs: vec![None, shell_result("hi")],
        tools: vec![freeform("apply_patch")],
        ..Default::default()
    };
    assert_eq!(
        prompt.get_formatted_input(),
        vec![function_call("shell", "c"), function_output("c", STRUCTURED)]
    );
    let json_patch = Prompt { tools: vec![function("apply_patch")], ..prompt };
    assert_eq!(json_patch.get_formatted_input(), input);
}

#[test]
fn every_kind_of_shell_call_counts() {
    let mut items = vec![
        local_shell(Some("unused"), Some("a")),
        custom_output("a", "{}"),
        local_shell(Some("b"), None),
        custom_output("b", "{}"),
        custom_call("apply_patch", "c"),
        custom_output("c", "{}"),
        function_call("container.exec", "d"),
        function_output("d", "{}"),
        function_call("apply_patch", "e"),
        function_output("e", "{}"),
        function_call("update_plan", "f"),
        function_output("f", "{}"),
        custom_call("other", "g"),
        custom_output("g", "{}"),
        custom_output("unused", "{}"),
    ];
    let decoded: Vec<Option<ExecOutputJson>> = items.iter().map(|_| shell_result("hi")).collect();
    reserialize_shell_outputs(&mut items, &decoded);
    assert_eq!(items[1], custom_output("a", STRUCTURED));
    assert_eq!(items[3], custom_output("b", STRUCTURED));
    assert_eq!(items[5], custom_output("c", STRUCTURED));
    assert_eq!(items[7], function_output("d", STRUCTURED));
    assert_eq!(items[9], function_output("e", STRUCTURED));
    assert_eq!(items[11], function_output("f", "{}"));
    assert_eq!(items[13], custom_output("g", "{}"));
    assert_eq!(items[14], custom_output("unused", "{}"));
    assert_eq!(items[0], local_shell(Some("unused"), Some("a")));
}

#[test]
fn one_call_has_one_answer() {
    let mut items = vec![
        function_output("c", "{}"),
        function_call("shell", "c"),
        function_output("c", "{1}"),
        function_output("c", " [2]"),
        function_call("shell", "c"),
        function_output("c", "\n{3}"),
    ];
    let decoded: Vec<Option<ExecOutputJson>> = items.iter().map(|_| shell_result("hi")).collect();
    reserialize_shell_outputs(&mut items, &decoded);
    assert_eq!(items[0], function_output("c", "{}"));
    assert_eq!(items[2], function_output("c", STRUCTURED));
    assert_eq!(items[3], function_output("c", " [2]"));
    assert_eq!(items[5], function_output("c", STRUCTURED));
}

#[test]
fn outputs_that_do_not_decode_stay() {
    let mut items = vec![function_call("shell", "c"), function_output("c", "plain")];
    reserialize_shell_outputs(&mut items, &Vec::new());
    assert_eq!(items[1], function_output("c", "plain"));
    reserialize_shell_outputs(&mut items, &vec![None, None]);
    assert_eq!(items[1], function_output("c", "plain"));
}

#[test]
fn a_second_rewriting_changes_nothing() {
    let mut items = vec![
        function_call("shell", "c"),
        function_output("c", "{json}"),
        function_call("shell", "d"),
        function_output("d", "plain"),
    ];
    reserialize_shell_outputs(&mut items, &vec![None, shell_result("hi"), None, None]);
    let once = items.clone();
    reserialize_shell_outputs(&mut items, &vec![None, shell_result("hi"), None, None]);
    assert_eq!(items, once);
    assert_eq!(items[1], function_output("c", STRUCTURED));
}
