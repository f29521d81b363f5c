//! What a response stream reports, told from what the server has sent: each report is given in terms
//! of the events received so far.

use crate::decimal::decimal_digits;
use crate::json::{json_tree, parsed_json, printed_json, JsonTree};
use crate::models::{
    text_option, ApiError, ApiErrorView, ContentItemView, ItemView, ResponseEvent,
    ResponseEventView,
};
use crate::rate_limits::SnapshotView;
use crate::sse::{
    block_delta_step, event_of, event_step, initial_state, lemma_run_append, lemma_run_one, opening,
    poll_step, report_views, run, tool_use_at, tree_option, usage_of, AnthropicContentBlock, AnthropicDelta,
    AnthropicErrorPayload, AnthropicSseEvent, AnthropicUsage, SsePoll, StepView, StreamView,
    ToolUseView,
};
use crate::text::{blank, is_white_space};
use vstd::prelude::*;

verus! {

/// A count of tokens, or zero where none was reported.
pub open spec fn tokens(count: Option<i64>) -> int {
    match count {
        Some(n) => n as int,
        None => 0,
    }
}

/// What reported counts amount to. The input and the output are as reported, and what was written to and
/// read from the cache together is the cached input. The total is the reported one, or else the sum of
/// the three. A sum that is too large for its type is the largest number there is.
pub proof fn law_usage_adds_up(usage: AnthropicUsage)
    ensures
        ({
            let result = usage_of(usage);
            let cached = tokens(usage.cache_creation_input_tokens) + tokens(
                usage.cache_read_input_tokens,
            );
            let sum = result.input_tokens + result.cached_input_tokens + result.output_tokens;
            let partial = result.input_tokens + result.cached_input_tokens;
            &&& result.input_tokens == tokens(usage.input_tokens)
            &&& result.output_tokens == tokens(usage.output_tokens)
            &&& result.reasoning_output_tokens == 0
            &&& i64::MIN <= cached <= i64::MAX ==> result.cached_input_tokens == cached
            &&& cached > i64::MAX ==> result.cached_input_tokens == i64::MAX
            &&& cached < i64::MIN ==> result.cached_input_tokens == i64::MIN
            &&& usage.total_tokens matches Some(total) ==> result.total_tokens == total
            &&& usage.total_tokens is None ==> {
                &&& i64::MIN <= partial <= i64::MAX && i64::MIN <= sum <= i64::MAX
                    ==> result.total_tokens == sum
                &&& result.output_tokens >= 0 && partial >= i64::MIN && sum > i64::MAX
                    ==> result.total_tokens == i64::MAX
                &&& result.output_tokens <= 0 && partial <= i64::MAX && sum < i64::MIN
                    ==> result.total_tokens == i64::MIN
            }
        }),
{
}

/// The event that an outcome brings, unless its data is nothing but white space or does not decode.
pub open spec fn heard(poll: SsePoll) -> Option<AnthropicSseEvent> {
    match poll {
        SsePoll::Event { data, decoded } => if exists|i: int|
            0 <= i < data@.len() && !is_white_space(#[trigger] data@[i]) {
            decoded
        } else {
            None
        },
        _ => None,
    }
}

/// Whether an outcome brings an event of this kind.
pub open spec fn brings(poll: SsePoll, kind: Seq<char>) -> bool {
    match heard(poll) {
        Some(event) => event.kind@ == kind,
        None => false,
    }
}

proof fn lemma_heard(poll: SsePoll)
    ensures
        heard(poll) == event_of(poll),
{
    match poll {
        SsePoll::Event { data, decoded } => {
            if exists|i: int| 0 <= i < data@.len() && !is_white_space(#[trigger] data@[i]) {
                let i = choose|i: int| 0 <= i < data@.len() && !is_white_space(#[trigger] data@[i]);
                assert(!blank(data@));
            } else {
                assert forall|i: int| 0 <= i < data@.len() implies is_white_space(
                    #[trigger] data@[i],
                ) by {}
            }
        },
        _ => {},
    }
}

proof fn lemma_kinds()
    ensures
        "message_start"@ != "message_delta"@,
        "message_start"@ != "content_block_start"@,
        "message_start"@ != "content_block_delta"@,
        "message_start"@ != "content_block_stop"@,
        "message_start"@ != "message_stop"@,
        "message_start"@ != "error"@,
        "message_delta"@ != "content_block_start"@,
        "message_delta"@ != "content_block_delta"@,
        "message_delta"@ != "content_block_stop"@,
        "message_delta"@ != "message_stop"@,
        "message_delta"@ != "error"@,
        "content_block_start"@ != "content_block_delta"@,
        "content_block_start"@ != "content_block_stop"@,
        "content_block_start"@ != "message_stop"@,
        "content_block_start"@ != "error"@,
        "content_block_delta"@ != "content_block_stop"@,
        "content_block_delta"@ != "message_stop"@,
        "content_block_delta"@ != "error"@,
        "content_block_stop"@ != "message_stop"@,
        "content_block_stop"@ != "error"@,
        "message_stop"@ != "error"@,
{
    reveal_strlit("message_start");
    reveal_strlit("message_delta");
    reveal_strlit("content_block_start");
    reveal_strlit("content_block_delta");
    reveal_strlit("content_block_stop");
    reveal_strlit("message_stop");
    reveal_strlit("error");
    assert("message_start"@.len() == 13);
    assert("message_delta"@.len() == 13);
    assert("content_block_start"@.len() == 19);
    assert("content_block_delta"@.len() == 19);
    assert("content_block_stop"@.len() == 18);
    assert("message_stop"@.len() == 12);
    assert("error"@.len() == 5);
    assert("message_start"@[8] == 's');
    assert("message_delta"@[8] == 'd');
    assert("content_block_start"@[14] == 's');
    assert("content_block_delta"@[14] == 'd');
}

/// The text that an outcome brings: that of a block's delta.
pub open spec fn text_brought(poll: SsePoll) -> Seq<char> {
    match heard(poll) {
        Some(event) => if event.kind@ == "content_block_delta"@ {
            match event.delta {
                Some(delta) => match delta.text {
                    Some(text) => text@,
                    None => Seq::empty(),
                },
                None => Seq::empty(),
            }
        } else {
            Seq::empty()
        },
        None => Seq::empty(),
    }
}

/// The texts that were sent, in order, without the empty ones.
pub open spec fn texts_sent(polls: Seq<SsePoll>) -> Seq<Seq<char>>
    decreases polls.len(),
{
    if polls.len() == 0 {
        Seq::empty()
    } else {
        let before = texts_sent(polls.drop_last());
        if text_brought(polls.last()).len() == 0 {
            before
        } else {
            before.push(text_brought(polls.last()))
        }
    }
}

/// The text of the message that is being received: all that was sent since the last `message_stop`.
pub open spec fn text_so_far(polls: Seq<SsePoll>) -> Seq<char>
    decreases polls.len(),
{
    if polls.len() == 0 || brings(polls.last(), "message_stop"@) {
        Seq::empty()
    } else {
        text_so_far(polls.drop_last()) + text_brought(polls.last())
    }
}

/// Whether a `message_stop` was received.
pub open spec fn has_stopped(polls: Seq<SsePoll>) -> bool {
    exists|i: int| 0 <= i < polls.len() && brings(#[trigger] polls[i], "message_stop"@)
}

/// The response id that an outcome brings: that of a message that starts or stops.
pub open spec fn id_brought(poll: SsePoll) -> Option<Seq<char>> {
    match heard(poll) {
        Some(event) => if event.kind@ == "message_start"@ || event.kind@ == "message_stop"@ {
            match event.message {
                Some(message) => Some(message.id@),
                None => None,
            }
        } else {
            None
        },
        None => None,
    }
}

/// The first response id that was received.
pub open spec fn first_id(polls: Seq<SsePoll>) -> Option<Seq<char>>
    decreases polls.len(),
{
    if polls.len() == 0 {
        None
    } else {
        match first_id(polls.drop_last()) {
            Some(id) => Some(id),
            None => id_brought(polls.last()),
        }
    }
}

/// The usage that an outcome brings: the event's own, unless a message starts, or else its message's.
pub open spec fn usage_brought(poll: SsePoll) -> Option<AnthropicUsage> {
    match heard(poll) {
        Some(event) => {
            let of_message = match event.message {
                Some(message) => message.usage,
                None => None,
            };
            if event.kind@ == "message_start"@ {
                of_message
            } else if event.kind@ == "message_delta"@ || event.kind@ == "message_stop"@ {
                match event.usage {
                    Some(usage) => Some(usage),
                    None => of_message,
                }
            } else {
                None
            }
        },
        None => None,
    }
}

/// The last usage that was received.
pub open spec fn last_usage(polls: Seq<SsePoll>) -> Option<AnthropicUsage>
    decreases polls.len(),
{
    if polls.len() == 0 {
        None
    } else {
        match usage_brought(polls.last()) {
            Some(usage) => Some(usage),
            None => last_usage(polls.drop_last()),
        }
    }
}

/// The tool call that an outcome announces for a block.
pub open spec fn call_announced(poll: SsePoll, index: usize) -> Option<AnthropicContentBlock> {
    match heard(poll) {
        Some(event) => if event.kind@ == "content_block_start"@ && event.index == Some(index) {
            match event.content_block {
                Some(block) => if block.kind@ == "tool_use"@ {
                    Some(block)
                } else {
                    None
                },
                None => None,
            }
        } else {
            None
        },
        None => None,
    }
}

/// The fragment of a tool call's input that an outcome brings for a block.
pub open spec fn fragment_brought(poll: SsePoll, index: usize) -> Seq<char> {
    match heard(poll) {
        Some(event) => if event.kind@ == "content_block_delta"@ && event.index == Some(index) {
            match event.delta {
                Some(delta) => match (delta.kind, delta.partial_json) {
                    (Some(kind), Some(part)) => if kind@ == "input_json_delta"@ {
                        part@
                    } else {
                        Seq::empty()
                    },
                    _ => Seq::empty(),
                },
                None => Seq::empty(),
            }
        } else {
            Seq::empty()
        },
        None => Seq::empty(),
    }
}

/// Whether an outcome says that a block is complete.
pub open spec fn completes(poll: SsePoll, index: usize) -> bool {
    match heard(poll) {
        Some(event) => event.kind@ == "content_block_stop"@ && event.index == Some(index),
        None => false,
    }
}

/// The tool call that is being received in a block: the last that was announced since the block was
/// complete.
pub open spec fn call_in(polls: Seq<SsePoll>, index: usize) -> Option<AnthropicContentBlock>
    decreases polls.len(),
{
    if polls.len() == 0 || completes(polls.last(), index) {
        None
    } else {
        match call_announced(polls.last(), index) {
            Some(block) => Some(block),
            None => call_in(polls.drop_last(), index),
        }
    }
}

/// The fragments that were received in a block since it was complete, joined.
pub open spec fn fragments_in(polls: Seq<SsePoll>, index: usize) -> Seq<char>
    decreases polls.len(),
{
    if polls.len() == 0 || completes(polls.last(), index) {
        Seq::empty()
    } else {
        fragments_in(polls.drop_last(), index) + fragment_brought(polls.last(), index)
    }
}

/// Whether a state is what the outcomes so far amount to.
spec fn remembers(state: StreamView, polls: Seq<SsePoll>) -> bool {
    &&& state.assistant_text == text_so_far(polls)
    &&& state.assistant_started == (text_so_far(polls).len() > 0)
    &&& state.completed_sent == has_stopped(polls)
    &&& state.response_id == first_id(polls)
    &&& state.token_usage == (match last_usage(polls) {
        Some(usage) => Some(usage_of(usage)),
        None => None,
    })
}

spec fn remembers_call(state: StreamView, polls: Seq<SsePoll>, index: usize) -> bool {
    if state.tool_uses.contains_key(index) {
        let tool = state.tool_uses[index];
        &&& tool.partial_json == fragments_in(polls, index)
        &&& match call_in(polls, index) {
            Some(block) => {
                &&& tool.id == text_option(block.id)
                &&& tool.name == text_option(block.name)
                &&& tool.input == tree_option(block.input)
            },
            None => tool.id is None && tool.name is None && tool.input is None,
        }
    } else {
        &&& call_in(polls, index) is None
        &&& fragments_in(polls, index).len() == 0
    }
}

proof fn lemma_stopped(polls: Seq<SsePoll>, poll: SsePoll)
    ensures
        has_stopped(polls.push(poll)) == (has_stopped(polls) || brings(poll, "message_stop"@)),
{
    let all = polls.push(poll);
    if has_stopped(polls) {
        let i = choose|i: int| 0 <= i < polls.len() && brings(#[trigger] polls[i], "message_stop"@);
        assert(brings(all[i], "message_stop"@));
    }
    if brings(poll, "message_stop"@) {
        assert(brings(all[polls.len() as int], "message_stop"@));
    }
    if has_stopped(all) {
        let i = choose|i: int| 0 <= i < all.len() && brings(#[trigger] all[i], "message_stop"@);
        if i < polls.len() {
            assert(brings(polls[i], "message_stop"@));
        }
    }
}

/// What the outcomes so far amount to once there is one more.
proof fn lemma_push(polls: Seq<SsePoll>, poll: SsePoll, index: usize)
    ensures
        ({
            let all = polls.push(poll);
            &&& text_so_far(all) == (if brings(poll, "message_stop"@) {
                Seq::empty()
            } else {
                text_so_far(polls) + text_brought(poll)
            })
            &&& first_id(all) == (match first_id(polls) {
                Some(id) => Some(id),
                None => id_brought(poll),
            })
            &&& last_usage(all) == (match usage_brought(poll) {
                Some(usage) => Some(usage),
                None => last_usage(polls),
            })
            &&& call_in(all, index) == (if completes(poll, index) {
                None
            } else {
                match call_announced(poll, index) {
                    Some(block) => Some(block),
                    None => call_in(polls, index),
                }
            })
            &&& fragments_in(all, index) == (if completes(poll, index) {
                Seq::empty()
            } else {
                fragments_in(polls, index) + fragment_brought(poll, index)
            })
        }),
{
    let all = polls.push(poll);
    assert(all.drop_last() =~= polls);
    assert(all.last() == poll);
}

proof fn lemma_remembers_step(state: StreamView, polls: Seq<SsePoll>, poll: SsePoll)
    requires
        remembers(state, polls),
    ensures
        remembers(poll_step(state, poll).state, polls.push(poll)),
{
    lemma_heard(poll);
    lemma_kinds();
    lemma_stopped(polls, poll);
    lemma_push(polls, poll, 0);
    let next = poll_step(state, poll).state;
    assert(text_so_far(polls) + Seq::<char>::empty() =~= text_so_far(polls));
    match heard(poll) {
        Some(event) => {
            assert(next == event_step(state, event).state);
            if event.kind@ == "message_start"@ {
            } else if event.kind@ == "message_delta"@ {
            } else if event.kind@ == "content_block_start"@ {
            } else if event.kind@ == "content_block_delta"@ {
                match event.delta {
                    Some(delta) => lemma_delta_state(state, event.index, delta),
                    None => {},
                }
            } else if event.kind@ == "content_block_stop"@ {
            } else if event.kind@ == "message_stop"@ {
            } else {
            }
        },
        None => {},
    }
}

/// A delta changes the assistant's text and nothing else but the tool calls.
proof fn lemma_delta_state(state: StreamView, index: Option<usize>, delta: AnthropicDelta)
    ensures
        ({
            let next = block_delta_step(state, index, Some(delta)).state;
            let text = match delta.text {
                Some(t) => t@,
                None => Seq::empty(),
            };
            &&& next.assistant_text == state.assistant_text + text
            &&& next.assistant_started == (state.assistant_started || text.len() > 0)
            &&& next.completed_sent == state.completed_sent
            &&& next.response_id == state.response_id
            &&& next.token_usage == state.token_usage
        }),
{
    assert(state.assistant_text + Seq::<char>::empty() =~= state.assistant_text);
    match delta.text {
        Some(t) => {
            if t@.len() == 0 {
                assert(t@ =~= Seq::<char>::empty());
            }
        },
        None => {},
    }
}

/// What a delta does to the tool call in a block.
proof fn lemma_delta_calls(state: StreamView, at: Option<usize>, delta: AnthropicDelta, index: usize)
    ensures
        ({
            let next = block_delta_step(state, at, Some(delta)).state;
            let part = match (delta.kind, delta.partial_json) {
                (Some(kind), Some(part)) => if kind@ == "input_json_delta"@ && at == Some(index) {
                    Some(part@)
                } else {
                    None
                },
                _ => None,
            };
            match part {
                Some(p) => {
                    let tool = tool_use_at(state, index);
                    &&& next.tool_uses.contains_key(index)
                    &&& next.tool_uses[index] == ToolUseView {
                        partial_json: tool.partial_json + p,
                        ..tool
                    }
                },
                None => {
                    &&& next.tool_uses.contains_key(index) == state.tool_uses.contains_key(index)
                    &&& next.tool_uses.contains_key(index) ==> next.tool_uses[index]
                        == state.tool_uses[index]
                },
            }
        }),
{
}

proof fn lemma_remembers_call_step(
    state: StreamView,
    polls: Seq<SsePoll>,
    poll: SsePoll,
    index: usize,
)
    requires
        remembers_call(state, polls, index),
    ensures
        remembers_call(poll_step(state, poll).state, polls.push(poll), index),
{
    lemma_heard(poll);
    lemma_kinds();
    lemma_push(polls, poll, index);
    let next = poll_step(state, poll).state;
    let before = fragments_in(polls, index);
    assert(before + Seq::<char>::empty() =~= before);
    if !state.tool_uses.contains_key(index) {
        assert(before =~= Seq::<char>::empty());
    }
    match heard(poll) {
        Some(event) => {
            assert(next == event_step(state, event).state);
            if event.kind@ == "message_start"@ {
            } else if event.kind@ == "message_delta"@ {
            } else if event.kind@ == "content_block_start"@ {
            } else if event.kind@ == "content_block_delta"@ {
                match event.delta {
                    Some(delta) => lemma_delta_calls(state, event.index, delta, index),
                    None => {},
                }
            } else if event.kind@ == "content_block_stop"@ {
            } else if event.kind@ == "message_stop"@ {
            } else {
            }
        },
        None => {},
    }
}

/// One more outcome runs as one more step.
proof fn lemma_one_more(polls: Seq<SsePoll>, poll: SsePoll)
    requires
        !run(initial_state(), polls).done,
    ensures
        ({
            let before = run(initial_state(), polls);
            let step = poll_step(before.state, poll);
            run(initial_state(), polls.push(poll)) == (StepView {
                reports: before.reports + step.reports,
                ..step
            })
        }),
{
    assert(polls.push(poll) =~= polls + seq![poll]);
    lemma_run_append(initial_state(), polls, seq![poll]);
    lemma_run_one(run(initial_state(), polls).state, poll);
}

proof fn lemma_remembers(polls: Seq<SsePoll>)
    requires
        !run(initial_state(), polls).done,
    ensures
        remembers(run(initial_state(), polls).state, polls),
        forall|index: usize| #[trigger]
            remembers_call(run(initial_state(), polls).state, polls, index),
    decreases polls.len(),
{
    if polls.len() > 0 {
        let front = polls.drop_last();
        let poll = polls.last();
        assert(polls =~= front.push(poll));
        assert(polls =~= front + seq![poll]);
        lemma_run_append(initial_state(), front, seq![poll]);
        lemma_remembers(front);
        lemma_one_more(front, poll);
        let state = run(initial_state(), front).state;
        lemma_remembers_step(state, front, poll);
        assert forall|index: usize| #[trigger]
            remembers_call(run(initial_state(), polls).state, polls, index) by {
            assert(remembers_call(state, front, index));
            lemma_remembers_call_step(state, front, poll, index);
        }
    }
}

/// What is reported where nothing is.
pub open spec fn nothing() -> Seq<Result<ResponseEventView, ApiErrorView>> {
    Seq::empty()
}

/// What one more outcome adds to the reports.
pub open spec fn adds(
    polls: Seq<SsePoll>,
    poll: SsePoll,
    reports: Seq<Result<ResponseEventView, ApiErrorView>>,
) -> bool {
    run(initial_state(), polls.push(poll)).reports == run(initial_state(), polls).reports + reports
}

/// Whether the stream ends with one more outcome.
pub open spec fn ends(polls: Seq<SsePoll>, poll: SsePoll) -> bool {
    run(initial_state(), polls.push(poll)).done
}

/// A message of the assistant.
pub open spec fn assistant(content: Seq<ContentItemView>) -> ItemView {
    ItemView::Message { id: None, role: "assistant"@, content }
}

/// A delta with a text, whatever the text is, unless it is empty, is reported at once, with that text; and
/// before it, a new message of the assistant, where no text came since the last `message_stop`.
pub proof fn law_text_is_reported(polls: Seq<SsePoll>, poll: SsePoll)
    requires
        !run(initial_state(), polls).done,
        brings(poll, "content_block_delta"@),
    ensures
        !ends(polls, poll),
        text_brought(poll).len() == 0 ==> adds(polls, poll, nothing()),
        text_brought(poll).len() > 0 && text_so_far(polls).len() == 0 ==> adds(
            polls,
            poll,
            seq![
                Ok(ResponseEventView::OutputItemAdded(assistant(Seq::empty()))),
                Ok(ResponseEventView::OutputTextDelta(text_brought(poll))),
            ],
        ),
        text_brought(poll).len() > 0 && text_so_far(polls).len() > 0 ==> adds(
            polls,
            poll,
            seq![Ok(ResponseEventView::OutputTextDelta(text_brought(poll)))],
        ),
{
    lemma_heard(poll);
    lemma_kinds();
    lemma_remembers(polls);
    lemma_one_more(polls, poll);
    let step = poll_step(run(initial_state(), polls).state, poll);
    if text_brought(poll).len() == 0 {
        assert(step.reports =~= nothing());
    } else if text_so_far(polls).len() == 0 {
        assert(step.reports =~= seq![
            Ok(ResponseEventView::OutputItemAdded(assistant(Seq::empty()))),
            Ok(ResponseEventView::OutputTextDelta(text_brought(poll))),
        ]);
    } else {
        assert(step.reports =~= seq![
            Ok::<_, ApiErrorView>(ResponseEventView::OutputTextDelta(text_brought(poll))),
        ]);
    }
}

/// A `message_stop` is answered with the assistant's message, which holds all the text that was sent since
/// the last one, joined, where there was any; and then with completion, under the first id that was
/// received and with the last usage.
pub proof fn law_message_is_completed(polls: Seq<SsePoll>, poll: SsePoll)
    requires
        !run(initial_state(), polls).done,
        brings(poll, "message_stop"@),
    ensures
        ({
            let text = text_so_far(polls);
            let completed: Result<ResponseEventView, ApiErrorView> = Ok(
                ResponseEventView::Completed {
                    response_id: match first_id(polls.push(poll)) {
                        Some(id) => id,
                        None => Seq::empty(),
                    },
                    token_usage: match last_usage(polls.push(poll)) {
                        Some(usage) => Some(usage_of(usage)),
                        None => None,
                    },
                },
            );
            let done: Result<ResponseEventView, ApiErrorView> = Ok(
                ResponseEventView::OutputItemDone(
                    assistant(seq![ContentItemView::OutputText { text }]),
                ),
            );
            &&& !ends(polls, poll)
            &&& text.len() > 0 ==> adds(polls, poll, seq![done, completed])
            &&& text.len() == 0 ==> adds(polls, poll, seq![completed])
        }),
{
    lemma_heard(poll);
    lemma_kinds();
    lemma_remembers(polls);
    lemma_one_more(polls, poll);
    lemma_remembers_step(run(initial_state(), polls).state, polls, poll);
}

/// What is reported of a tool call, given what its block announced and the fragments of its input. The
/// input is what the fragments spell, or, without fragments, what was announced, or else null.
pub open spec fn call_reported(
    index: usize,
    block: AnthropicContentBlock,
    fragments: Seq<char>,
) -> Result<ResponseEventView, ApiErrorView> {
    let input: Result<JsonTree, Seq<char>> = if fragments.len() > 0 {
        parsed_json(fragments)
    } else {
        match block.input {
            Some(value) => Ok(json_tree(value)),
            None => Ok(JsonTree::Null),
        }
    };
    match input {
        Ok(tree) => match printed_json(tree) {
            Ok(arguments) => Ok(
                ResponseEventView::OutputItemDone(
                    ItemView::FunctionCall {
                        id: None,
                        name: match block.name {
                            Some(name) => name@,
                            None => Seq::empty(),
                        },
                        arguments,
                        call_id: match block.id {
                            Some(id) => id@,
                            None => "tool-call-"@ + decimal_digits(index as nat),
                        },
                    },
                ),
            ),
            Err(reason) => Err(
                ApiErrorView::Stream("failed to serialize tool_use arguments: "@ + reason),
            ),
        },
        Err(reason) => Err(
            ApiErrorView::Stream("failed to parse tool_use input_json_delta: "@ + reason),
        ),
    }
}

/// Once a block is complete, the tool call that was received in it is reported, if it has a name or an
/// id, whatever came for other blocks in between; a report that is an error ends the stream. A block
/// without such a call, or of which nothing is said, is not reported.
pub proof fn law_tool_call_is_reported(polls: Seq<SsePoll>, poll: SsePoll, index: usize)
    requires
        !run(initial_state(), polls).done,
        completes(poll, index),
    ensures
        match call_in(polls, index) {
            Some(block) => {
                let report = call_reported(index, block, fragments_in(polls, index));
                if block.name is Some || block.id is Some {
                    adds(polls, poll, seq![report]) && ends(polls, poll) == report is Err
                } else {
                    adds(polls, poll, nothing()) && !ends(polls, poll)
                }
            },
            None => adds(polls, poll, nothing()) && !ends(polls, poll),
        },
{
    lemma_heard(poll);
    lemma_kinds();
    lemma_remembers(polls);
    lemma_one_more(polls, poll);
    let state = run(initial_state(), polls).state;
    assert(remembers_call(state, polls, index));
}

/// The description of an error event: its message, and before it the kind and the code, where either is
/// given.
pub open spec fn error_text(payload: Option<AnthropicErrorPayload>) -> Seq<char> {
    let (kind, code, message): (Option<String>, Option<String>, Option<String>) = match payload {
        Some(p) => (p.kind, p.code, p.message),
        None => (None, None, None),
    };
    let kind = match kind {
        Some(text) => text@,
        None => Seq::empty(),
    };
    let code = match code {
        Some(text) => text@,
        None => Seq::empty(),
    };
    let message = match message {
        Some(text) => text@,
        None => "unknown Anthropic error"@,
    };
    let head = if kind.len() > 0 || code.len() > 0 {
        "Anthropic error ("@ + kind + " "@ + code + "): "@
    } else {
        "Anthropic error: "@
    };
    head + message
}

/// An error event, an error of the connection, a wait that took too long, and an end that comes before
/// any `message_stop` each end the stream with one error, which says what happened. An end after a
/// `message_stop` ends it without one.
pub proof fn law_stream_ends(polls: Seq<SsePoll>, poll: SsePoll)
    requires
        !run(initial_state(), polls).done,
    ensures
        brings(poll, "error"@) ==> ends(polls, poll) && adds(
            polls,
            poll,
            seq![Err(ApiErrorView::Stream(error_text(heard(poll)->0.error)))],
        ),
        poll matches SsePoll::Failed(reason) ==> ends(polls, poll) && adds(
            polls,
            poll,
            seq![Err(ApiErrorView::Stream(reason@))],
        ),
        poll is TimedOut ==> ends(polls, poll) && adds(
            polls,
            poll,
            seq![Err(ApiErrorView::Stream("idle timeout waiting for Anthropic SSE"@))],
        ),
        poll is Closed && !has_stopped(polls) ==> ends(polls, poll) && adds(
            polls,
            poll,
            seq![Err(ApiErrorView::Stream("stream closed before message_stop"@))],
        ),
        poll is Closed && has_stopped(polls) ==> ends(polls, poll) && adds(polls, poll, nothing()),
{
    lemma_heard(poll);
    lemma_kinds();
    lemma_remembers(polls);
    lemma_one_more(polls, poll);
}

/// No other outcome is answered with anything: an event that starts a message, changes it or starts a
/// block, one of another kind, one that completes a block without saying which, and data that is
/// nothing but white space or does not decode.
pub proof fn law_rest_is_silence(polls: Seq<SsePoll>, poll: SsePoll)
    requires
        !run(initial_state(), polls).done,
        poll is Event,
        !brings(poll, "content_block_delta"@),
        !brings(poll, "message_stop"@),
        !brings(poll, "error"@),
        forall|index: usize| !#[trigger] completes(poll, index),
    ensures
        adds(polls, poll, nothing()),
        !ends(polls, poll),
{
    lemma_heard(poll);
    lemma_kinds();
    lemma_one_more(polls, poll);
    match heard(poll) {
        Some(event) => match event.index {
            Some(index) => {
                assert(!completes(poll, index));
            },
            None => {},
        },
        None => {},
    }
    let step = poll_step(run(initial_state(), polls).state, poll);
    assert(step.reports =~= nothing());
}

/// The texts among a list of reports, in order.
pub open spec fn texts_reported(reports: Seq<Result<ResponseEventView, ApiErrorView>>) -> Seq<
    Seq<char>,
>
    decreases reports.len(),
{
    if reports.len() == 0 {
        Seq::empty()
    } else {
        let before = texts_reported(reports.drop_last());
        match reports.last() {
            Ok(ResponseEventView::OutputTextDelta(text)) => before.push(text),
            _ => before,
        }
    }
}

proof fn lemma_texts_append(
    a: Seq<Result<ResponseEventView, ApiErrorView>>,
    b: Seq<Result<ResponseEventView, ApiErrorView>>,
)
    ensures
        texts_reported(a + b) == texts_reported(a) + texts_reported(b),
    decreases b.len(),
{
    if b.len() == 0 {
        assert(a + b =~= a);
        assert(texts_reported(a) + texts_reported(b) =~= texts_reported(a));
    } else {
        lemma_texts_append(a, b.drop_last());
        assert((a + b).drop_last() =~= a + b.drop_last());
        assert((a + b).last() == b.last());
        assert(texts_reported(a + b) =~= texts_reported(a) + texts_reported(b));
    }
}

proof fn lemma_step_texts(state: StreamView, poll: SsePoll)
    ensures
        texts_reported(poll_step(state, poll).reports) == (if text_brought(poll).len() == 0 {
            Seq::empty()
        } else {
            seq![text_brought(poll)]
        }),
{
    lemma_heard(poll);
    lemma_kinds();
    let reports = poll_step(state, poll).reports;
    reveal_with_fuel(texts_reported, 3);
    if reports.len() == 1 {
        assert(reports.drop_last().len() == 0);
    } else if reports.len() == 2 {
        assert(reports.drop_last().len() == 1);
        assert(reports.drop_last().last() == reports[0]);
        assert(reports.drop_last().drop_last().len() == 0);
    }
    assert(texts_reported(reports) =~= (if text_brought(poll).len() == 0 {
        Seq::empty()
    } else {
        seq![text_brought(poll)]
    }));
}

/// No text is lost, changed, added or moved: the texts that are reported are exactly those that were sent,
/// in order, but for the empty ones.
pub proof fn law_no_text_is_lost(polls: Seq<SsePoll>)
    requires
        !run(initial_state(), polls).done,
    ensures
        texts_reported(run(initial_state(), polls).reports) == texts_sent(polls),
    decreases polls.len(),
{
    if polls.len() == 0 {
        assert(texts_reported(run(initial_state(), polls).reports) =~= texts_sent(polls));
    } else {
        let front = polls.drop_last();
        let poll = polls.last();
        assert(polls =~= front.push(poll));
        assert(polls =~= front + seq![poll]);
        lemma_run_append(initial_state(), front, seq![poll]);
        law_no_text_is_lost(front);
        lemma_one_more(front, poll);
        let before = run(initial_state(), front);
        lemma_step_texts(before.state, poll);
        lemma_texts_append(before.reports, poll_step(before.state, poll).reports);
        assert(texts_reported(run(initial_state(), polls).reports) =~= texts_sent(polls));
    }
}

/// Rate limits, where there are any, are the one thing that is reported before the stream is read.
pub proof fn law_rate_limits_come_first(limits: SnapshotView)
    ensures
        opening(Some(limits)) == seq![
            Ok::<_, ApiErrorView>(ResponseEventView::RateLimits(limits)),
        ],
        opening(None).len() == 0,
{
}

/// A list of reports is read report by report, and each report whole.
pub proof fn law_reports_are_read_whole(reports: Seq<Result<ResponseEvent, ApiError>>, i: int)
    requires
        0 <= i < reports.len(),
    ensures
        report_views(reports).len() == reports.len(),
        match reports[i] {
            Ok(ResponseEvent::OutputItemAdded(item)) => report_views(reports)[i] == Ok::<
                _,
                ApiErrorView,
            >(ResponseEventView::OutputItemAdded(item@)),
            Ok(ResponseEvent::OutputTextDelta(text)) => report_views(reports)[i] == Ok::<
                _,
                ApiErrorView,
            >(ResponseEventView::OutputTextDelta(text@)),
            Ok(ResponseEvent::OutputItemDone(item)) => report_views(reports)[i] == Ok::<
                _,
                ApiErrorView,
            >(ResponseEventView::OutputItemDone(item@)),
            Ok(ResponseEvent::Completed { response_id, token_usage }) => report_views(reports)[i]
                == Ok::<_, ApiErrorView>(
                ResponseEventView::Completed { response_id: response_id@, token_usage },
            ),
            Ok(ResponseEvent::RateLimits(limits)) => report_views(reports)[i] == Ok::<
                _,
                ApiErrorView,
            >(ResponseEventView::RateLimits(limits@)),
            Err(ApiError::Config(reason)) => report_views(reports)[i] == Err::<
                ResponseEventView,
                _,
            >(ApiErrorView::Config(reason@)),
            Err(ApiError::Stream(reason)) => report_views(reports)[i] == Err::<
                ResponseEventView,
                _,
            >(ApiErrorView::Stream(reason@)),
        },
{
}

} // verus!
