//! The response stream of the Messages endpoint, as a state machine: each outcome of waiting
//! for the next server-sent event changes the state and says what to report.

use crate::decimal::{decimal_digits, format_u64};
use crate::json::{
    json_tree, parsed_json, plain_within, printed_json, read_outcome, reads_as, value_from_str,
    value_null, value_to_string, write_outcome, JsonTree,
};
use crate::models::{
    clone_text_option, text_option, ApiError, ApiErrorView, ContentItem, ContentItemView, ItemView,
    ResponseEvent, ResponseEventView, ResponseItem, TokenUsage,
};
use crate::rate_limits::{anthropic_rate_limits, parse_anthropic_rate_limit, SnapshotView};
use crate::text::{blank, is_blank, same_text};
use http::{HeaderMap, HeaderValue};
use serde_json::Value;
use std::collections::HashMap;
use vstd::prelude::*;
use vstd::string::StringExecFns;

verus! {

broadcast use vstd::std_specs::hash::group_hash_axioms;

/// Token counts as the endpoint reports them.
#[derive(Debug, Clone, Copy, PartialEq, Eq, Structural)]
pub struct AnthropicUsage {
    pub input_tokens: Option<i64>,
    pub cache_creation_input_tokens: Option<i64>,
    pub cache_read_input_tokens: Option<i64>,
    pub output_tokens: Option<i64>,
    pub total_tokens: Option<i64>,
}

/// The `i64` nearest to an integer.
pub open spec fn saturated(n: int) -> i64 {
    if n > i64::MAX {
        i64::MAX
    } else if n < i64::MIN {
        i64::MIN
    } else {
        n as i64
    }
}

/// A count that was not reported is zero.
pub open spec fn count_or_zero(count: Option<i64>) -> i64 {
    match count {
        Some(n) => n,
        None => 0,
    }
}

/// The token usage that reported counts amount to: what was written to and read from the
/// cache counts as cached input, and the total, where it is not reported, is the sum.
pub open spec fn usage_of(usage: AnthropicUsage) -> TokenUsage {
    let input = count_or_zero(usage.input_tokens);
    let cached = saturated(
        count_or_zero(usage.cache_creation_input_tokens) + count_or_zero(
            usage.cache_read_input_tokens,
        ),
    );
    let output = count_or_zero(usage.output_tokens);
    TokenUsage {
        input_tokens: input,
        cached_input_tokens: cached,
        output_tokens: output,
        reasoning_output_tokens: 0,
        total_tokens: match usage.total_tokens {
            Some(total) => total,
            None => saturated(saturated(input + cached) + output),
        },
    }
}

fn saturating_add(a: i64, b: i64) -> (r: i64)
    ensures
        r == saturated(a + b),
{
    match a.checked_add(b) {
        Some(sum) => sum,
        None => if a > 0 {
            i64::MAX
        } else {
            i64::MIN
        },
    }
}

impl From<AnthropicUsage> for TokenUsage {
    fn from(usage: AnthropicUsage) -> (r: Self) {
        let input_tokens: i64 = usage.input_tokens.unwrap_or(0);
        let cached_input_tokens: i64 = saturating_add(
            usage.cache_creation_input_tokens.unwrap_or(0),
            usage.cache_read_input_tokens.unwrap_or(0),
        );
        let output_tokens: i64 = usage.output_tokens.unwrap_or(0);
        let total_tokens: i64 = usage.total_tokens.unwrap_or(
            saturating_add(saturating_add(input_tokens, cached_input_tokens), output_tokens),
        );
        TokenUsage {
            input_tokens,
            cached_input_tokens,
            output_tokens,
            reasoning_output_tokens: 0,
            total_tokens,
        }
    }
}

impl vstd::std_specs::convert::FromSpecImpl<AnthropicUsage> for TokenUsage {
    open spec fn obeys_from_spec() -> bool {
        true
    }

    open spec fn from_spec(usage: AnthropicUsage) -> TokenUsage {
        usage_of(usage)
    }
}

/// The `message` member of an event.
#[derive(Debug, PartialEq)]
pub struct AnthropicMessage {
    pub id: String,
    pub usage: Option<AnthropicUsage>,
}

/// The `content_block` member of an event.
#[derive(Debug, PartialEq)]
pub struct AnthropicContentBlock {
    pub kind: String,
    pub id: Option<String>,
    pub name: Option<String>,
    pub input: Option<Value>,
}

/// The `delta` member of an event.
#[derive(Debug, PartialEq)]
pub struct AnthropicDelta {
    pub kind: Option<String>,
    pub text: Option<String>,
    pub partial_json: Option<String>,
}

/// The `error` member of an event.
#[derive(Debug, PartialEq)]
pub struct AnthropicErrorPayload {
    pub kind: Option<String>,
    pub code: Option<String>,
    pub message: Option<String>,
}

/// One decoded server-sent event.
#[derive(Debug, PartialEq)]
pub struct AnthropicSseEvent {
    pub kind: String,
    pub index: Option<usize>,
    pub message: Option<AnthropicMessage>,
    pub content_block: Option<AnthropicContentBlock>,
    pub delta: Option<AnthropicDelta>,
    pub usage: Option<AnthropicUsage>,
    pub error: Option<AnthropicErrorPayload>,
}

/// An optional JSON value by its tree.
pub open spec fn tree_option(value: Option<Value>) -> Option<JsonTree> {
    match value {
        Some(v) => Some(json_tree(v)),
        None => None,
    }
}

/// A tool call that is being received: what its block announced, and the fragments of its
/// input so far.
#[derive(Debug, PartialEq)]
pub struct ToolUseState {
    pub id: Option<String>,
    pub name: Option<String>,
    pub input: Option<Value>,
    pub partial_json: String,
}

#[verifier::ext_equal]
pub struct ToolUseView {
    pub id: Option<Seq<char>>,
    pub name: Option<Seq<char>>,
    pub input: Option<JsonTree>,
    pub partial_json: Seq<char>,
}

impl View for ToolUseState {
    type V = ToolUseView;

    open spec fn view(&self) -> ToolUseView {
        ToolUseView {
            id: text_option(self.id),
            name: text_option(self.name),
            input: tree_option(self.input),
            partial_json: self.partial_json@,
        }
    }
}

/// A tool call of which nothing has been received.
pub open spec fn blank_tool_use() -> ToolUseView {
    ToolUseView { id: None, name: None, input: None, partial_json: Seq::empty() }
}

/// One thing that the stream reports.
pub open spec fn report_view(report: Result<ResponseEvent, ApiError>) -> Result<
    ResponseEventView,
    ApiErrorView,
> {
    match report {
        Ok(event) => Ok(event@),
        Err(error) => Err(error@),
    }
}

/// The views of a list of reports.
pub open spec fn report_views(reports: Seq<Result<ResponseEvent, ApiError>>) -> Seq<
    Result<ResponseEventView, ApiErrorView>,
> {
    reports.map_values(|report: Result<ResponseEvent, ApiError>| report_view(report))
}

/// The input of a finished tool call, given how its fragments read: the fragments' value
/// where there are fragments, else what the block announced, else null.
pub open spec fn tool_input_given(
    announced: Option<JsonTree>,
    fragments: Option<Result<JsonTree, Seq<char>>>,
) -> Result<JsonTree, ApiErrorView> {
    match fragments {
        Some(Ok(tree)) => Ok(tree),
        Some(Err(message)) => Err(
            ApiErrorView::Stream("failed to parse tool_use input_json_delta: "@ + message),
        ),
        None => match announced {
            Some(tree) => Ok(tree),
            None => Ok(JsonTree::Null),
        },
    }
}

/// Settles the input of a finished tool call, given how its fragments read.
pub fn tool_use_input(
    announced: Option<Value>,
    fragments: Option<Result<Value, String>>,
) -> (r: Result<Value, ApiError>)
    ensures
        match tool_input_given(
            tree_option(announced),
            match fragments {
                Some(outcome) => Some(read_outcome(outcome)),
                None => None,
            },
        ) {
            Ok(tree) => r matches Ok(value) && json_tree(value) == tree,
            Err(error) => r matches Err(e) && e@ == error,
        },
{
    match fragments {
        Some(Ok(value)) => Ok(value),
        Some(Err(message)) => {
            let mut text = "failed to parse tool_use input_json_delta: ".to_string();
            text.append(message.as_str());
            Err(ApiError::Stream(text))
        },
        None => match announced {
            Some(value) => Ok(value),
            None => Ok(value_null()),
        },
    }
}

/// The report of a finished tool call, given how its input prints.
pub open spec fn tool_call_given(
    index: usize,
    id: Option<Seq<char>>,
    name: Option<Seq<char>>,
    arguments: Result<Seq<char>, Seq<char>>,
) -> Result<ResponseEventView, ApiErrorView> {
    match arguments {
        Ok(text) => Ok(
            ResponseEventView::OutputItemDone(
                ItemView::FunctionCall {
                    id: None,
                    name: match name {
                        Some(n) => n,
                        None => Seq::empty(),
                    },
                    arguments: text,
                    call_id: match id {
                        Some(i) => i,
                        None => "tool-call-"@ + decimal_digits(index as nat),
                    },
                },
            ),
        ),
        Err(message) => Err(
            ApiErrorView::Stream("failed to serialize tool_use arguments: "@ + message),
        ),
    }
}

/// Reports a finished tool call, given how its input prints.
pub fn tool_use_call(
    index: usize,
    id: Option<String>,
    name: Option<String>,
    arguments: Result<String, String>,
) -> (r: Result<ResponseEvent, ApiError>)
    ensures
        report_view(r) == tool_call_given(
            index,
            text_option(id),
            text_option(name),
            write_outcome(arguments),
        ),
{
    match arguments {
        Ok(text) => {
            let name = match name {
                Some(n) => n,
                None => String::new(),
            };
            let call_id = match id {
                Some(i) => i,
                None => {
                    let mut made = "tool-call-".to_string();
                    made.append(format_u64(index as u64).as_str());
                    made
                },
            };
            Ok(
                ResponseEvent::OutputItemDone(
                    ResponseItem::FunctionCall { id: None, name, arguments: text, call_id },
                ),
            )
        },
        Err(message) => {
            let mut text = "failed to serialize tool_use arguments: ".to_string();
            text.append(message.as_str());
            Err(ApiError::Stream(text))
        },
    }
}

/// The input of a finished tool call.
pub open spec fn tool_input(tool: ToolUseView) -> Result<JsonTree, ApiErrorView> {
    let fragments = if tool.partial_json.len() == 0 {
        None
    } else {
        Some(parsed_json(tool.partial_json))
    };
    tool_input_given(tool.input, fragments)
}

/// What a finished tool call is reported as.
pub open spec fn tool_call_report(index: usize, tool: ToolUseView) -> Result<
    ResponseEventView,
    ApiErrorView,
> {
    match tool_input(tool) {
        Ok(tree) => tool_call_given(index, tool.id, tool.name, printed_json(tree)),
        Err(error) => Err(error),
    }
}

/// Whether the arguments of a reported tool call read as the given input.
pub open spec fn arguments_read_as(
    report: Result<ResponseEventView, ApiErrorView>,
    input: JsonTree,
) -> bool {
    report matches Ok(ResponseEventView::OutputItemDone(ItemView::FunctionCall { arguments, .. }))
        && reads_as(arguments, input)
}

/// Reports a finished tool call: its fragments are read, and its input is printed. It fails exactly
/// where the fragments are no JSON. An input whose numbers are integers, and which is not nested too
/// deeply to be parsed, can be read back from the call's arguments.
pub fn finish_tool_use(index: usize, state: ToolUseState) -> (r: Result<ResponseEvent, ApiError>)
    ensures
        report_view(r) == tool_call_report(index, state@),
        r is Ok == tool_input(state@) is Ok,
        r is Ok && plain_within(tool_input(state@)->Ok_0, 127) ==> arguments_read_as(
            report_view(r),
            tool_input(state@)->Ok_0,
        ),
{
    let ToolUseState { id, name, input, partial_json } = state;
    let fragments = if partial_json.as_str().is_empty() {
        None
    } else {
        Some(value_from_str(partial_json.as_str()))
    };
    match tool_use_input(input, fragments) {
        Ok(value) => tool_use_call(index, id, name, value_to_string(&value)),
        Err(error) => Err(error),
    }
}

/// What has been received of a response.
pub struct AnthropicStream {
    assistant_started: bool,
    assistant_text: String,
    response_id: Option<String>,
    token_usage: Option<TokenUsage>,
    completed_sent: bool,
    tool_use_blocks: HashMap<usize, ToolUseState>,
}

/// The state of a stream: whether an assistant message is open and the text it has so far,
/// the response's id and token usage where they are known, whether completion was reported,
/// and the tool calls that are being received, by block index.
#[verifier::ext_equal]
pub struct StreamView {
    pub assistant_started: bool,
    pub assistant_text: Seq<char>,
    pub response_id: Option<Seq<char>>,
    pub token_usage: Option<TokenUsage>,
    pub completed_sent: bool,
    pub tool_uses: Map<usize, ToolUseView>,
}

impl View for AnthropicStream {
    type V = StreamView;

    closed spec fn view(&self) -> StreamView {
        StreamView {
            assistant_started: self.assistant_started,
            assistant_text: self.assistant_text@,
            response_id: text_option(self.response_id),
            token_usage: self.token_usage,
            completed_sent: self.completed_sent,
            tool_uses: self.tool_use_blocks@.map_values(|state: ToolUseState| state@),
        }
    }
}

/// The state before anything was received.
pub open spec fn initial_state() -> StreamView {
    StreamView {
        assistant_started: false,
        assistant_text: Seq::empty(),
        response_id: None,
        token_usage: None,
        completed_sent: false,
        tool_uses: Map::empty(),
    }
}

/// What one outcome leads to: the state after it, what to report, in order, and whether the
/// stream ends there.
#[verifier::ext_equal]
pub struct StepView {
    pub state: StreamView,
    pub reports: Seq<Result<ResponseEventView, ApiErrorView>>,
    pub done: bool,
}

/// A step that reports nothing and goes on.
pub open spec fn quiet(state: StreamView) -> StepView {
    StepView { state, reports: Seq::empty(), done: false }
}

/// A step that ends the stream with an error.
pub open spec fn failed(state: StreamView, message: Seq<char>) -> StepView {
    StepView { state, reports: seq![Err(ApiErrorView::Stream(message))], done: true }
}

/// The state once a reported usage, if any, has replaced the one known so far.
pub open spec fn with_usage(state: StreamView, usage: Option<AnthropicUsage>) -> StreamView {
    match usage {
        Some(u) => StreamView { token_usage: Some(usage_of(u)), ..state },
        None => state,
    }
}

/// The state once a message's id has been taken, unless one is known already.
pub open spec fn with_response_id(state: StreamView, message: AnthropicMessage) -> StreamView {
    match state.response_id {
        Some(_) => state,
        None => StreamView { response_id: Some(message.id@), ..state },
    }
}

/// The usage that an event's message reports.
pub open spec fn message_usage(message: Option<AnthropicMessage>) -> Option<AnthropicUsage> {
    match message {
        Some(m) => m.usage,
        None => None,
    }
}

/// `message_start`: the response's id and first usage.
pub open spec fn after_message_start(
    state: StreamView,
    message: Option<AnthropicMessage>,
) -> StreamView {
    let identified = match message {
        Some(m) => with_response_id(state, m),
        None => state,
    };
    with_usage(identified, message_usage(message))
}

/// `message_delta`: a newer usage, of the message or of the event itself, which prevails.
pub open spec fn after_message_delta(
    state: StreamView,
    message: Option<AnthropicMessage>,
    usage: Option<AnthropicUsage>,
) -> StreamView {
    with_usage(with_usage(state, message_usage(message)), usage)
}

/// The tool call at an index, which is blank until something of it is received.
pub open spec fn tool_use_at(state: StreamView, index: usize) -> ToolUseView {
    if state.tool_uses.contains_key(index) {
        state.tool_uses[index]
    } else {
        blank_tool_use()
    }
}

/// `content_block_start`: a block of a tool call announces the call; its fragments stay.
pub open spec fn after_block_start(
    state: StreamView,
    index: Option<usize>,
    block: Option<AnthropicContentBlock>,
) -> StreamView {
    match (index, block) {
        (Some(i), Some(b)) => if b.kind@ == "tool_use"@ {
            let tool = ToolUseView {
                id: text_option(b.id),
                name: text_option(b.name),
                input: tree_option(b.input),
                partial_json: tool_use_at(state, i).partial_json,
            };
            StreamView { tool_uses: state.tool_uses.insert(i, tool), ..state }
        } else {
            state
        },
        _ => state,
    }
}

/// An assistant message with the given pieces.
pub open spec fn assistant_message(content: Seq<ContentItemView>) -> ItemView {
    ItemView::Message { id: None, role: "assistant"@, content }
}

/// A delta's text: it extends the assistant message, which it opens where none is open. An
/// empty text is nothing.
pub open spec fn text_step(state: StreamView, text: Option<Seq<char>>) -> StepView {
    match text {
        Some(t) => if t.len() == 0 {
            quiet(state)
        } else {
            StepView {
                state: StreamView {
                    assistant_started: true,
                    assistant_text: state.assistant_text + t,
                    ..state
                },
                reports: (if state.assistant_started {
                    Seq::empty()
                } else {
                    seq![Ok(ResponseEventView::OutputItemAdded(assistant_message(Seq::empty())))]
                }).push(Ok(ResponseEventView::OutputTextDelta(t))),
                done: false,
            }
        },
        None => quiet(state),
    }
}

/// A delta's fragment of a tool call's input: it is added to the fragments of its block.
pub open spec fn after_fragment(
    state: StreamView,
    index: Option<usize>,
    kind: Option<Seq<char>>,
    fragment: Option<Seq<char>>,
) -> StreamView {
    match (index, kind, fragment) {
        (Some(i), Some(k), Some(part)) => if k == "input_json_delta"@ {
            let tool = tool_use_at(state, i);
            StreamView {
                tool_uses: state.tool_uses.insert(
                    i,
                    ToolUseView { partial_json: tool.partial_json + part, ..tool },
                ),
                ..state
            }
        } else {
            state
        },
        _ => state,
    }
}

/// `content_block_delta`: a piece of text, a fragment of a tool call's input, or both.
pub open spec fn block_delta_step(
    state: StreamView,
    index: Option<usize>,
    delta: Option<AnthropicDelta>,
) -> StepView {
    match delta {
        Some(d) => {
            let text = text_step(state, text_option(d.text));
            StepView {
                state: after_fragment(
                    text.state,
                    index,
                    text_option(d.kind),
                    text_option(d.partial_json),
                ),
                ..text
            }
        },
        None => quiet(state),
    }
}

/// `content_block_stop`: the tool call of the block, where there is one that has a name or an
/// id, is reported, and a tool call whose input cannot be read or printed ends the stream.
pub open spec fn block_stop_step(state: StreamView, index: Option<usize>) -> StepView {
    match index {
        Some(i) => if state.tool_uses.contains_key(i) {
            let tool = state.tool_uses[i];
            let after = StreamView { tool_uses: state.tool_uses.remove(i), ..state };
            if tool.name is Some || tool.id is Some {
                let report = tool_call_report(i, tool);
                StepView { state: after, reports: seq![report], done: report is Err }
            } else {
                quiet(after)
            }
        } else {
            quiet(state)
        },
        None => quiet(state),
    }
}

/// `message_stop`: the open assistant message, if any, is reported with its whole text, and
/// then the response's completion.
pub open spec fn message_stop_step(
    state: StreamView,
    message: Option<AnthropicMessage>,
    usage: Option<AnthropicUsage>,
) -> StepView {
    let known = with_usage(after_message_start(state, message), usage);
    let completed = ResponseEventView::Completed {
        response_id: match known.response_id {
            Some(id) => id,
            None => Seq::empty(),
        },
        token_usage: known.token_usage,
    };
    if known.assistant_started {
        let item = assistant_message(seq![ContentItemView::OutputText { text: known.assistant_text }]);
        StepView {
            state: StreamView {
                assistant_started: false,
                assistant_text: Seq::empty(),
                completed_sent: true,
                ..known
            },
            reports: seq![Ok(ResponseEventView::OutputItemDone(item)), Ok(completed)],
            done: false,
        }
    } else {
        StepView {
            state: StreamView { completed_sent: true, ..known },
            reports: seq![Ok(completed)],
            done: false,
        }
    }
}

/// A text that was given, or a default.
pub open spec fn text_or(text: Option<Seq<char>>, default: Seq<char>) -> Seq<char> {
    match text {
        Some(t) => t,
        None => default,
    }
}

/// The description of an error event, from its payload's kind, code and message.
pub open spec fn error_description(
    kind: Option<Seq<char>>,
    code: Option<Seq<char>>,
    message: Option<Seq<char>>,
) -> Seq<char> {
    let kind = text_or(kind, Seq::empty());
    let code = text_or(code, Seq::empty());
    let message = text_or(message, "unknown Anthropic error"@);
    if kind.len() == 0 && code.len() == 0 {
        "Anthropic error: "@ + message
    } else {
        "Anthropic error ("@ + kind + " "@ + code + "): "@ + message
    }
}

/// The description of an error event.
pub open spec fn payload_description(error: Option<AnthropicErrorPayload>) -> Seq<char> {
    match error {
        Some(e) => error_description(
            text_option(e.kind),
            text_option(e.code),
            text_option(e.message),
        ),
        None => error_description(None, None, None),
    }
}

/// What one decoded event leads to. Events of other kinds are ignored.
pub open spec fn event_step(state: StreamView, event: AnthropicSseEvent) -> StepView {
    let kind = event.kind@;
    if kind == "message_start"@ {
        quiet(after_message_start(state, event.message))
    } else if kind == "message_delta"@ {
        quiet(after_message_delta(state, event.message, event.usage))
    } else if kind == "content_block_start"@ {
        quiet(after_block_start(state, event.index, event.content_block))
    } else if kind == "content_block_delta"@ {
        block_delta_step(state, event.index, event.delta)
    } else if kind == "content_block_stop"@ {
        block_stop_step(state, event.index)
    } else if kind == "message_stop"@ {
        message_stop_step(state, event.message, event.usage)
    } else if kind == "error"@ {
        failed(state, payload_description(event.error))
    } else {
        quiet(state)
    }
}

/// The input of the tool call that an event completes, where it completes one and the input can be
/// read.
pub open spec fn completed_input(state: StreamView, event: AnthropicSseEvent) -> Option<JsonTree> {
    if event.kind@ == "content_block_stop"@ {
        match event.index {
            Some(i) => {
                let tool = tool_use_at(state, i);
                if tool.name is Some || tool.id is Some {
                    tool_input(tool).ok()
                } else {
                    None
                }
            },
            None => None,
        }
    } else {
        None
    }
}

/// Whether a report is a tool call, and its arguments read as the given input, unless the input has
/// other numbers than integers or is nested too deeply to be parsed.
pub open spec fn delivers(
    report: Result<ResponseEventView, ApiErrorView>,
    input: JsonTree,
) -> bool {
    &&& report matches Ok(ResponseEventView::OutputItemDone(ItemView::FunctionCall { .. }))
    &&& plain_within(input, 127) ==> arguments_read_as(report, input)
}

/// Whether a step reports one tool call, with the given input, and goes on, and the input can be read
/// back from the call's arguments, unless it has other numbers than integers or is nested too deeply
/// to be parsed.
pub open spec fn input_reads_back(input: Option<JsonTree>, step: Step) -> bool {
    match input {
        Some(tree) => {
            &&& !step.done
            &&& step.reports@.len() == 1
            &&& delivers(report_view(step.reports@[0]), tree)
        },
        None => true,
    }
}

/// The kinds of events are told apart by their names.
pub proof fn lemma_event_kinds()
    ensures
        "content_block_start"@ != "message_start"@,
        "content_block_start"@ != "message_delta"@,
        "content_block_delta"@ != "message_start"@,
        "content_block_delta"@ != "message_delta"@,
        "content_block_delta"@ != "content_block_start"@,
        "content_block_stop"@ != "message_start"@,
        "content_block_stop"@ != "message_delta"@,
        "content_block_stop"@ != "content_block_start"@,
        "content_block_stop"@ != "content_block_delta"@,
        "message_stop"@ != "message_start"@,
        "message_stop"@ != "message_delta"@,
        "message_stop"@ != "content_block_start"@,
        "message_stop"@ != "content_block_delta"@,
        "message_stop"@ != "content_block_stop"@,
{
    reveal_strlit("message_stop");
    reveal_strlit("message_start");
    reveal_strlit("message_delta");
    reveal_strlit("content_block_start");
    reveal_strlit("content_block_delta");
    reveal_strlit("content_block_stop");
    assert("message_stop"@.len() == 12);
    assert("message_start"@.len() == 13);
    assert("message_delta"@.len() == 13);
    assert("content_block_start"@.len() == 19);
    assert("content_block_delta"@.len() == 19);
    assert("content_block_stop"@.len() == 18);
    assert("content_block_start"@[14] == 's');
    assert("content_block_delta"@[14] == 'd');
}

/// An outcome of waiting for the next server-sent event.
#[derive(Debug, PartialEq)]
pub enum SsePoll {
    /// An event came: its data, and the event that the data decodes to, where it decodes.
    Event { data: String, decoded: Option<AnthropicSseEvent> },
    /// The stream reported an error.
    Failed(String),
    /// The stream ended.
    Closed,
    /// Nothing came in time.
    TimedOut,
}

/// The event that an outcome brings, where it brings one that is not ignored.
pub open spec fn event_of(poll: SsePoll) -> Option<AnthropicSseEvent> {
    match poll {
        SsePoll::Event { data, decoded } => if blank(data@) {
            None
        } else {
            decoded
        },
        _ => None,
    }
}

/// What one outcome leads to. Data that is blank or does not decode is ignored.
pub open spec fn poll_step(state: StreamView, poll: SsePoll) -> StepView {
    match poll {
        SsePoll::Event { .. } => match event_of(poll) {
            Some(event) => event_step(state, event),
            None => quiet(state),
        },
        SsePoll::Failed(message) => failed(state, message@),
        SsePoll::Closed => if state.completed_sent {
            StepView { state, reports: Seq::empty(), done: true }
        } else {
            failed(state, "stream closed before message_stop"@)
        },
        SsePoll::TimedOut => failed(state, "idle timeout waiting for Anthropic SSE"@),
    }
}

/// What to do after one outcome: the reports to send, in order, and whether to stop there.
#[derive(Debug, PartialEq)]
pub struct Step {
    pub reports: Vec<Result<ResponseEvent, ApiError>>,
    pub done: bool,
}

/// Whether a step and a state are what a [`StepView`] says.
pub open spec fn agrees(step: Step, state: StreamView, expected: StepView) -> bool {
    &&& state == expected.state
    &&& report_views(step.reports@) == expected.reports
    &&& step.done == expected.done
}

fn quiet_step() -> (r: Step)
    ensures
        report_views(r.reports@) == Seq::<Result<ResponseEventView, ApiErrorView>>::empty(),
        !r.done,
{
    let reports: Vec<Result<ResponseEvent, ApiError>> = Vec::new();
    assert(report_views(reports@) =~= Seq::empty());
    Step { reports, done: false }
}

fn failed_step(message: String) -> (r: Step)
    ensures
        report_views(r.reports@) == seq![Err::<ResponseEventView, _>(ApiErrorView::Stream(message@))],
        r.done,
{
    let mut reports: Vec<Result<ResponseEvent, ApiError>> = Vec::new();
    reports.push(Err(ApiError::Stream(message)));
    assert(report_views(reports@) =~= seq![
        Err::<ResponseEventView, _>(ApiErrorView::Stream(message@)),
    ]);
    Step { reports, done: true }
}

impl AnthropicStream {
    /// A stream of which nothing has been received.
    pub fn new() -> (r: Self)
        ensures
            r@ == initial_state(),
    {
        let r = AnthropicStream {
            assistant_started: false,
            assistant_text: String::new(),
            response_id: None,
            token_usage: None,
            completed_sent: false,
            tool_use_blocks: HashMap::new(),
        };
        assert(r@.tool_uses =~= Map::empty());
        r
    }

    fn take_usage(&mut self, usage: Option<AnthropicUsage>)
        ensures
            final(self)@ == with_usage(old(self)@, usage),
    {
        match usage {
            Some(u) => {
                self.token_usage = Some(TokenUsage::from(u));
            },
            None => {},
        }
    }

    fn take_message(&mut self, message: Option<AnthropicMessage>)
        ensures
            final(self)@ == after_message_start(old(self)@, message),
    {
        match message {
            Some(m) => {
                let AnthropicMessage { id, usage } = m;
                if self.response_id.is_none() {
                    self.response_id = Some(id);
                }
                self.take_usage(usage);
            },
            None => {},
        }
    }

    /// Takes the tool call at an index out of the state; a blank one where there is none.
    fn take_tool_use(&mut self, index: usize) -> (r: ToolUseState)
        ensures
            r@ == tool_use_at(old(self)@, index),
            final(self)@ == (StreamView {
                tool_uses: old(self)@.tool_uses.remove(index),
                ..old(self)@
            }),
    {
        let found = self.tool_use_blocks.remove(&index);
        assert(self@.tool_uses =~= old(self)@.tool_uses.remove(index));
        match found {
            Some(state) => state,
            None => ToolUseState {
                id: None,
                name: None,
                input: None,
                partial_json: String::new(),
            },
        }
    }

    fn put_tool_use(&mut self, index: usize, state: ToolUseState)
        ensures
            final(self)@ == (StreamView {
                tool_uses: old(self)@.tool_uses.insert(index, state@),
                ..old(self)@
            }),
    {
        self.tool_use_blocks.insert(index, state);
        assert(self@.tool_uses =~= old(self)@.tool_uses.insert(index, state@));
    }

    fn on_block_start(&mut self, index: Option<usize>, block: Option<AnthropicContentBlock>)
        ensures
            final(self)@ == after_block_start(old(self)@, index, block),
    {
        match (index, block) {
            (Some(i), Some(b)) => {
                if same_text(b.kind.as_str(), "tool_use") {
                    let mut state = self.take_tool_use(i);
                    let AnthropicContentBlock { kind: _, id, name, input } = b;
                    state.id = id;
                    state.name = name;
                    state.input = input;
                    self.put_tool_use(i, state);
                    assert(self@.tool_uses =~= after_block_start(old(self)@, index, block).tool_uses);
                }
            },
            _ => {},
        }
    }

    fn on_text(&mut self, text: Option<String>) -> (r: Step)
        ensures
            agrees(r, final(self)@, text_step(old(self)@, text_option(text))),
    {
        match text {
            Some(t) => {
                if t.as_str().is_empty() {
                    quiet_step()
                } else {
                    let mut reports: Vec<Result<ResponseEvent, ApiError>> = Vec::new();
                    if !self.assistant_started {
                        self.assistant_started = true;
                        let content: Vec<ContentItem> = Vec::new();
                        let item = ResponseItem::Message {
                            id: None,
                            role: "assistant".to_string(),
                            content,
                        };
                        assert(item@ =~= assistant_message(Seq::empty()));
                        reports.push(Ok(ResponseEvent::OutputItemAdded(item)));
                    }
                    self.assistant_text.append(t.as_str());
                    reports.push(Ok(ResponseEvent::OutputTextDelta(t)));
                    assert(report_views(reports@) =~= text_step(
                        old(self)@,
                        text_option(text),
                    ).reports);
                    Step { reports, done: false }
                }
            },
            None => quiet_step(),
        }
    }

    fn on_fragment(&mut self, index: Option<usize>, kind: Option<String>, fragment: Option<String>)
        ensures
            final(self)@ == after_fragment(
                old(self)@,
                index,
                text_option(kind),
                text_option(fragment),
            ),
    {
        match (index, kind, fragment) {
            (Some(i), Some(k), Some(part)) => {
                if same_text(k.as_str(), "input_json_delta") {
                    let mut state = self.take_tool_use(i);
                    state.partial_json.append(part.as_str());
                    self.put_tool_use(i, state);
                    assert(self@.tool_uses =~= after_fragment(
                        old(self)@,
                        index,
                        text_option(kind),
                        text_option(fragment),
                    ).tool_uses);
                }
            },
            _ => {},
        }
    }

    fn on_block_delta(&mut self, index: Option<usize>, delta: Option<AnthropicDelta>) -> (r: Step)
        ensures
            agrees(r, final(self)@, block_delta_step(old(self)@, index, delta)),
    {
        match delta {
            Some(d) => {
                let AnthropicDelta { kind, text, partial_json } = d;
                let step = self.on_text(text);
                self.on_fragment(index, kind, partial_json);
                step
            },
            None => quiet_step(),
        }
    }

    fn on_block_stop(&mut self, index: Option<usize>) -> (r: Step)
        ensures
            agrees(r, final(self)@, block_stop_step(old(self)@, index)),
            index matches Some(i) ==> {
                let tool = tool_use_at(old(self)@, i);
                tool.name is Some || tool.id is Some ==> input_reads_back(tool_input(tool).ok(), r)
            },
    {
        match index {
            Some(i) => {
                let found = self.tool_use_blocks.remove(&i);
                assert(self@.tool_uses =~= old(self)@.tool_uses.remove(i));
                match found {
                    Some(state) => {
                        if state.name.is_some() || state.id.is_some() {
                            let report = finish_tool_use(i, state);
                            let done = report.is_err();
                            let mut reports: Vec<Result<ResponseEvent, ApiError>> = Vec::new();
                            reports.push(report);
                            assert(report_views(reports@) =~= seq![report_view(report)]);
                            Step { reports, done }
                        } else {
                            quiet_step()
                        }
                    },
                    None => {
                        assert(old(self)@.tool_uses.remove(i) =~= old(self)@.tool_uses);
                        quiet_step()
                    },
                }
            },
            None => quiet_step(),
        }
    }

    fn on_message_stop(
        &mut self,
        message: Option<AnthropicMessage>,
        usage: Option<AnthropicUsage>,
    ) -> (r: Step)
        ensures
            agrees(r, final(self)@, message_stop_step(old(self)@, message, usage)),
    {
        self.take_message(message);
        self.take_usage(usage);
        let mut reports: Vec<Result<ResponseEvent, ApiError>> = Vec::new();
        if self.assistant_started {
            let mut content: Vec<ContentItem> = Vec::new();
            content.push(ContentItem::OutputText { text: self.assistant_text.clone() });
            let item = ResponseItem::Message { id: None, role: "assistant".to_string(), content };
            assert(item@ =~= assistant_message(
                seq![ContentItemView::OutputText { text: self@.assistant_text }],
            ));
            self.assistant_started = false;
            self.assistant_text = String::new();
            reports.push(Ok(ResponseEvent::OutputItemDone(item)));
        }
        let response_id = match clone_text_option(&self.response_id) {
            Some(id) => id,
            None => String::new(),
        };
        let completed = ResponseEvent::Completed { response_id, token_usage: self.token_usage };
        self.completed_sent = true;
        reports.push(Ok(completed));
        assert(report_views(reports@) =~= message_stop_step(old(self)@, message, usage).reports);
        Step { reports, done: false }
    }

    /// Takes one decoded event.
    pub fn on_event(&mut self, event: AnthropicSseEvent) -> (r: Step)
        ensures
            agrees(r, final(self)@, event_step(old(self)@, event)),
            input_reads_back(completed_input(old(self)@, event), r),
    {
        proof {
            lemma_event_kinds();
        }
        let AnthropicSseEvent { kind, index, message, content_block, delta, usage, error } = event;
        let kind = kind.as_str();
        if same_text(kind, "message_start") {
            self.take_message(message);
            quiet_step()
        } else if same_text(kind, "message_delta") {
            match message {
                Some(m) => {
                    self.take_usage(m.usage);
                },
                None => {},
            }
            self.take_usage(usage);
            quiet_step()
        } else if same_text(kind, "content_block_start") {
            self.on_block_start(index, content_block);
            quiet_step()
        } else if same_text(kind, "content_block_delta") {
            self.on_block_delta(index, delta)
        } else if same_text(kind, "content_block_stop") {
            self.on_block_stop(index)
        } else if same_text(kind, "message_stop") {
            self.on_message_stop(message, usage)
        } else if same_text(kind, "error") {
            failed_step(describe_error(error))
        } else {
            quiet_step()
        }
    }

    /// Takes one outcome of waiting for the next event.
    pub fn on_poll(&mut self, poll: SsePoll) -> (r: Step)
        ensures
            agrees(r, final(self)@, poll_step(old(self)@, poll)),
            event_of(poll) matches Some(event) ==> input_reads_back(
                completed_input(old(self)@, event),
                r,
            ),
    {
        match poll {
            SsePoll::Event { data, decoded } => {
                if is_blank(data.as_str()) {
                    quiet_step()
                } else {
                    match decoded {
                        Some(event) => self.on_event(event),
                        None => quiet_step(),
                    }
                }
            },
            SsePoll::Failed(message) => failed_step(message),
            SsePoll::Closed => {
                if self.completed_sent {
                    Step { done: true, ..quiet_step() }
                } else {
                    failed_step("stream closed before message_stop".to_string())
                }
            },
            SsePoll::TimedOut => failed_step("idle timeout waiting for Anthropic SSE".to_string()),
        }
    }
}

/// Describes an error event.
pub fn describe_error(error: Option<AnthropicErrorPayload>) -> (r: String)
    ensures
        r@ == payload_description(error),
{
    let (kind, code, message): (Option<String>, Option<String>, Option<String>) = match error {
        Some(e) => {
            let AnthropicErrorPayload { kind, code, message } = e;
            (kind, code, message)
        },
        None => (None, None, None),
    };
    let kind = match kind {
        Some(k) => k,
        None => String::new(),
    };
    let code = match code {
        Some(c) => c,
        None => String::new(),
    };
    let message = match message {
        Some(m) => m,
        None => "unknown Anthropic error".to_string(),
    };
    if code.as_str().is_empty() && kind.as_str().is_empty() {
        let mut r = "Anthropic error: ".to_string();
        r.append(message.as_str());
        r
    } else {
        let mut r = "Anthropic error (".to_string();
        r.append(kind.as_str());
        r.append(" ");
        r.append(code.as_str());
        r.append("): ");
        r.append(message.as_str());
        r
    }
}

/// What a list of outcomes leads to, up to the first that ends the stream.
pub open spec fn run(state: StreamView, polls: Seq<SsePoll>) -> StepView
    decreases polls.len(),
{
    if polls.len() == 0 {
        quiet(state)
    } else {
        let first = poll_step(state, polls.first());
        if first.done {
            first
        } else {
            let rest = run(first.state, polls.drop_first());
            StepView { reports: first.reports + rest.reports, ..rest }
        }
    }
}

/// A list of outcomes runs as its first part and then, unless that ended the stream, the rest.
pub proof fn lemma_run_append(state: StreamView, a: Seq<SsePoll>, b: Seq<SsePoll>)
    ensures
        run(state, a + b) == (if run(state, a).done {
            run(state, a)
        } else {
            StepView {
                reports: run(state, a).reports + run(run(state, a).state, b).reports,
                ..run(run(state, a).state, b)
            }
        }),
    decreases a.len(),
{
    if a.len() == 0 {
        assert(a + b == b);
        assert(run(state, a).reports + run(state, b).reports == run(state, b).reports);
    } else {
        assert((a + b).first() == a.first());
        assert((a + b).drop_first() == a.drop_first() + b);
        let first = poll_step(state, a.first());
        if !first.done {
            lemma_run_append(first.state, a.drop_first(), b);
            let middle = run(first.state, a.drop_first());
            let last = run(middle.state, b);
            assert(first.reports + (middle.reports + last.reports) == (first.reports
                + middle.reports) + last.reports);
        }
    }
}

/// A single outcome runs as one step.
pub proof fn lemma_run_one(state: StreamView, poll: SsePoll)
    ensures
        run(state, seq![poll]) == poll_step(state, poll),
{
    let polls = seq![poll];
    let first = poll_step(state, poll);
    assert(polls.drop_first().len() == 0);
    assert(first.reports + run(first.state, polls.drop_first()).reports == first.reports);
}

/// Whether the tool call that outcome `k` completes, where it completes one whose input can be read, is
/// among the reports of a whole stream: it stands right after what the outcomes before `k` report.
pub open spec fn call_is_delivered(
    polls: Seq<SsePoll>,
    reports: Seq<Result<ResponseEventView, ApiErrorView>>,
    k: int,
) -> bool {
    let before = run(initial_state(), polls.take(k));
    let input = match event_of(polls[k]) {
        Some(event) => completed_input(before.state, event),
        None => None,
    };
    match input {
        Some(tree) => !before.done ==> {
            &&& before.reports.len() < reports.len()
            &&& delivers(reports[before.reports.len() as int], tree)
        },
        None => true,
    }
}

/// The reports of a whole stream, whose outcomes are given in order. Outcomes after the one
/// that ends the stream are not looked at. Every tool call whose input can be read is reported, and
/// its input can be read back from its arguments.
pub fn process_anthropic_sse(polls: Vec<SsePoll>) -> (reports: Vec<Result<ResponseEvent, ApiError>>)
    ensures
        report_views(reports@) == run(initial_state(), polls@).reports,
        forall|k: int|
            0 <= k < polls@.len() ==> #[trigger] call_is_delivered(
                polls@,
                report_views(reports@),
                k,
            ),
{
    let mut stream = AnthropicStream::new();
    let mut reports: Vec<Result<ResponseEvent, ApiError>> = Vec::new();
    let ghost all = polls@;
    let ghost start = initial_state();
    assert(report_views(reports@) =~= Seq::empty());
    for poll in it: polls
        invariant
            it.seq() == all,
            start == initial_state(),
            run(start, all.take(it.index())) == (StepView {
                state: stream@,
                reports: report_views(reports@),
                done: false,
            }),
            forall|k: int|
                0 <= k < it.index() ==> #[trigger] call_is_delivered(
                    all,
                    report_views(reports@),
                    k,
                ),
    {
        let ghost i = it.index();
        let ghost before = report_views(reports@);
        let ghost state = stream@;
        assert(all[i] == poll);
        let mut step = stream.on_poll(poll);
        let ghost new = report_views(step.reports@);
        assert(new.len() == step.reports@.len());
        proof {
            if new.len() > 0 {
                assert(new[0] == report_view(step.reports@[0]));
            }
            assert(all.take(i + 1) == all.take(i) + seq![poll]);
            lemma_run_append(start, all.take(i), seq![poll]);
            lemma_run_one(state, poll);
        }
        reports.append(&mut step.reports);
        assert(report_views(reports@) =~= before + new);
        proof {
            assert forall|k: int| 0 <= k <= i implies #[trigger] call_is_delivered(
                all,
                before + new,
                k,
            ) by {
                if k < i {
                    assert(call_is_delivered(all, before, k));
                }
            }
        }
        if step.done {
            proof {
                assert forall|k: int| i < k <= all.len() implies #[trigger] run(
                    start,
                    all.take(k),
                ) == run(start, all.take(i + 1)) by {
                    let more = all.subrange(i + 1, k);
                    assert(all.take(k) == all.take(i + 1) + more);
                    lemma_run_append(start, all.take(i + 1), more);
                }
                assert(all.take(all.len() as int) == all);
                assert forall|k: int| 0 <= k < all.len() implies #[trigger] call_is_delivered(
                    all,
                    before + new,
                    k,
                ) by {
                    if k > i {
                        assert(run(start, all.take(k)).done);
                    }
                }
            }
            return reports;
        }
    }
    assert(all.take(all.len() as int) == all);
    reports
}

/// What is reported before the stream is read, given the rate limits: those, where there are any.
pub open spec fn opening(limits: Option<SnapshotView>) -> Seq<
    Result<ResponseEventView, ApiErrorView>,
> {
    match limits {
        Some(snapshot) => seq![Ok(ResponseEventView::RateLimits(snapshot))],
        None => Seq::empty(),
    }
}

/// What is reported before the stream is read: the rate limits that the response's headers tell of,
/// where they tell of any.
pub fn opening_reports(headers: &HeaderMap<HeaderValue>) -> (r: Vec<Result<ResponseEvent, ApiError>>)
    ensures
        report_views(r@) == opening(anthropic_rate_limits(*headers)),
{
    let mut reports: Vec<Result<ResponseEvent, ApiError>> = Vec::new();
    match parse_anthropic_rate_limit(headers) {
        Some(snapshot) => {
            reports.push(Ok(ResponseEvent::RateLimits(snapshot)));
            assert(report_views(reports@) =~= seq![
                Ok::<_, ApiErrorView>(ResponseEventView::RateLimits(snapshot@)),
            ]);
        },
        None => {
            assert(report_views(reports@) =~= Seq::empty());
        },
    }
    reports
}

} // verus!
