//! What holds of every response stream, whatever the server sends.

use crate::models::{text_option, ApiErrorView, ContentItemView, ItemView, ResponseEventView};
use crate::sse::{
    after_block_start, assistant_message, event_of, event_step, initial_state, lemma_event_kinds,
    lemma_run_append, lemma_run_one, message_usage, poll_step, run, tool_call_report, tree_option,
    AnthropicContentBlock, AnthropicSseEvent, SsePoll, StepView, StreamView, ToolUseView,
};
use vstd::prelude::*;

verus! {

/// The assistant message that is open after a list of reports has been read, by its text so
/// far: `Some(None)` where none is open, and `None` where the reports do not fit together.
pub open spec fn follow(
    open: Option<Seq<char>>,
    report: Result<ResponseEventView, ApiErrorView>,
) -> Option<Option<Seq<char>>> {
    match report {
        Ok(ResponseEventView::OutputItemAdded(item)) => if open is None && item
            == assistant_message(Seq::empty()) {
            Some(Some(Seq::empty()))
        } else {
            None
        },
        Ok(ResponseEventView::OutputTextDelta(text)) => match open {
            Some(so_far) => if text.len() > 0 {
                Some(Some(so_far + text))
            } else {
                None
            },
            None => None,
        },
        Ok(ResponseEventView::OutputItemDone(item)) => match item {
            ItemView::FunctionCall { .. } => Some(open),
            _ => match open {
                Some(text) => if item == assistant_message(
                    seq![ContentItemView::OutputText { text }],
                ) {
                    Some(None)
                } else {
                    None
                },
                None => None,
            },
        },
        Ok(ResponseEventView::Completed { .. }) => if open is None {
            Some(None)
        } else {
            None
        },
        Ok(ResponseEventView::RateLimits(_)) => Some(open),
        Err(_) => Some(open),
    }
}

/// [`follow`] over a list of reports.
pub open spec fn follow_all(
    open: Option<Seq<char>>,
    reports: Seq<Result<ResponseEventView, ApiErrorView>>,
) -> Option<Option<Seq<char>>>
    decreases reports.len(),
{
    if reports.len() == 0 {
        Some(open)
    } else {
        match follow(open, reports.first()) {
            Some(next) => follow_all(next, reports.drop_first()),
            None => None,
        }
    }
}

/// The assistant message that a state has open.
pub open spec fn open_message(state: StreamView) -> Option<Seq<char>> {
    if state.assistant_started {
        Some(state.assistant_text)
    } else {
        None
    }
}

/// There is text only while a message is open.
pub open spec fn text_in_message(state: StreamView) -> bool {
    state.assistant_started || state.assistant_text.len() == 0
}

proof fn lemma_follow_append(
    open: Option<Seq<char>>,
    a: Seq<Result<ResponseEventView, ApiErrorView>>,
    b: Seq<Result<ResponseEventView, ApiErrorView>>,
)
    ensures
        follow_all(open, a + b) == match follow_all(open, a) {
            Some(next) => follow_all(next, b),
            None => None,
        },
    decreases a.len(),
{
    if a.len() == 0 {
        assert(a + b == b);
    } else {
        assert((a + b).first() == a.first());
        assert((a + b).drop_first() == a.drop_first() + b);
        match follow(open, a.first()) {
            Some(next) => lemma_follow_append(next, a.drop_first(), b),
            None => {},
        }
    }
}

proof fn lemma_follow_step(state: StreamView, poll: SsePoll)
    requires
        text_in_message(state),
    ensures
        text_in_message(poll_step(state, poll).state),
        follow_all(open_message(state), poll_step(state, poll).reports) == Some(
            open_message(poll_step(state, poll).state),
        ),
{
    reveal_with_fuel(follow_all, 3);
    let step = poll_step(state, poll);
    if step.reports.len() == 1 {
        assert(step.reports.drop_first().len() == 0);
    } else if step.reports.len() == 2 {
        assert(step.reports.drop_first().len() == 1);
        assert(step.reports.drop_first().first() == step.reports[1]);
        assert(step.reports.drop_first().drop_first().len() == 0);
    }
    assert(Seq::<char>::empty() + step.state.assistant_text == step.state.assistant_text);
    if !state.assistant_started {
        assert(state.assistant_text == Seq::<char>::empty());
    }
}

/// The reports of every stream fit together: an assistant message is added empty, before its
/// first delta; no delta is empty or comes outside a message; a message is done with exactly
/// the text of its deltas, joined; and completion is reported only when no message is open.
pub proof fn law_reports_assemble(polls: Seq<SsePoll>)
    ensures
        follow_all(None, run(initial_state(), polls).reports) == Some(
            open_message(run(initial_state(), polls).state),
        ),
{
    lemma_reports_assemble(initial_state(), polls);
}

proof fn lemma_reports_assemble(state: StreamView, polls: Seq<SsePoll>)
    requires
        text_in_message(state),
    ensures
        text_in_message(run(state, polls).state),
        follow_all(open_message(state), run(state, polls).reports) == Some(
            open_message(run(state, polls).state),
        ),
    decreases polls.len(),
{
    if polls.len() > 0 {
        let first = poll_step(state, polls.first());
        lemma_follow_step(state, polls.first());
        if !first.done {
            lemma_reports_assemble(first.state, polls.drop_first());
            lemma_follow_append(
                open_message(state),
                first.reports,
                run(first.state, polls.drop_first()).reports,
            );
        }
    }
}

/// Once a stream has ended, what comes after is without effect.
pub proof fn law_nothing_after_the_end(state: StreamView, polls: Seq<SsePoll>, more: Seq<SsePoll>)
    requires
        run(state, polls).done,
    ensures
        run(state, polls + more) == run(state, polls),
{
    lemma_run_append(state, polls, more);
}

/// An error ends the stream: it is the last thing that is reported.
pub proof fn law_error_ends_the_stream(state: StreamView, polls: Seq<SsePoll>, i: int)
    requires
        0 <= i < run(state, polls).reports.len(),
        run(state, polls).reports[i] is Err,
    ensures
        run(state, polls).done,
        i == run(state, polls).reports.len() - 1,
    decreases polls.len(),
{
    let first = poll_step(state, polls.first());
    if !first.done {
        assert(forall|j: int| 0 <= j < first.reports.len() ==> first.reports[j] is Ok);
        law_error_ends_the_stream(first.state, polls.drop_first(), i - first.reports.len());
    }
}

/// Whether completion is among the reports.
pub open spec fn reports_completion(
    reports: Seq<Result<ResponseEventView, ApiErrorView>>,
) -> bool {
    exists|i: int| 0 <= i < reports.len() && is_completion(#[trigger] reports[i])
}

pub open spec fn is_completion(report: Result<ResponseEventView, ApiErrorView>) -> bool {
    report matches Ok(ResponseEventView::Completed { .. })
}

proof fn lemma_completion_step(state: StreamView, poll: SsePoll)
    ensures
        poll_step(state, poll).state.completed_sent == (state.completed_sent || reports_completion(
            poll_step(state, poll).reports,
        )),
{
    let step = poll_step(state, poll);
    if step.state.completed_sent && !state.completed_sent {
        assert(is_completion(step.reports[step.reports.len() - 1]));
    }
}

proof fn lemma_completion(state: StreamView, polls: Seq<SsePoll>)
    ensures
        run(state, polls).state.completed_sent == (state.completed_sent || reports_completion(
            run(state, polls).reports,
        )),
    decreases polls.len(),
{
    if polls.len() > 0 {
        let first = poll_step(state, polls.first());
        lemma_completion_step(state, polls.first());
        if !first.done {
            let rest = run(first.state, polls.drop_first());
            lemma_completion(first.state, polls.drop_first());
            let all = first.reports + rest.reports;
            if reports_completion(first.reports) {
                let i = choose|i: int|
                    0 <= i < first.reports.len() && is_completion(#[trigger] first.reports[i]);
                assert(is_completion(all[i]));
            }
            if reports_completion(rest.reports) {
                let i = choose|i: int|
                    0 <= i < rest.reports.len() && is_completion(#[trigger] rest.reports[i]);
                assert(is_completion(all[i + first.reports.len()]));
            }
            if reports_completion(all) {
                let i = choose|i: int| 0 <= i < all.len() && is_completion(#[trigger] all[i]);
                if i < first.reports.len() {
                    assert(is_completion(first.reports[i]));
                } else {
                    assert(is_completion(rest.reports[i - first.reports.len()]));
                }
            }
        }
    }
}

/// A stream that closes is in order exactly if its completion was reported before; if not, the
/// close is reported as an error.
pub proof fn law_close_needs_completion(polls: Seq<SsePoll>)
    requires
        !run(initial_state(), polls).done,
    ensures
        run(initial_state(), polls.push(SsePoll::Closed)).done,
        run(initial_state(), polls.push(SsePoll::Closed)).reports == (if reports_completion(
            run(initial_state(), polls).reports,
        ) {
            run(initial_state(), polls).reports
        } else {
            run(initial_state(), polls).reports.push(
                Err(ApiErrorView::Stream("stream closed before message_stop"@)),
            )
        }),
{
    let before = run(initial_state(), polls);
    let closed = seq![SsePoll::Closed];
    lemma_completion(initial_state(), polls);
    lemma_run_append(initial_state(), polls, closed);
    assert(polls.push(SsePoll::Closed) == polls + closed);
    let last = run(before.state, closed);
    assert(last == poll_step(before.state, SsePoll::Closed));
    assert(before.reports + last.reports == run(
        initial_state(),
        polls.push(SsePoll::Closed),
    ).reports);
}

/// Whether an outcome is ignored: its data is blank or does not decode, or its event is of a kind that
/// the stream does not know, or a `message_delta` without usage.
pub open spec fn is_ignored(poll: SsePoll) -> bool {
    poll is Event && match event_of(poll) {
        Some(event) => {
            &&& event.kind@ != "message_start"@
            &&& event.kind@ == "message_delta"@ ==> event.usage is None && message_usage(
                event.message,
            ) is None
            &&& event.kind@ != "content_block_start"@
            &&& event.kind@ != "content_block_delta"@
            &&& event.kind@ != "content_block_stop"@
            &&& event.kind@ != "message_stop"@
            &&& event.kind@ != "error"@
        },
        None => true,
    }
}

/// An outcome that is ignored changes nothing, wherever in a stream it comes.
pub proof fn law_ignored_outcomes_change_nothing(
    state: StreamView,
    before: Seq<SsePoll>,
    poll: SsePoll,
    after: Seq<SsePoll>,
)
    requires
        is_ignored(poll),
    ensures
        run(state, before + seq![poll] + after) == run(state, before + after),
{
    let middle = run(state, before);
    lemma_run_append(state, before, seq![poll]);
    lemma_run_append(state, before + seq![poll], after);
    lemma_run_append(state, before, after);
    lemma_run_one(middle.state, poll);
    assert(middle.reports + Seq::<Result<ResponseEventView, ApiErrorView>>::empty()
        == middle.reports);
}

/// The first id that a stream learns stays the response's id.
pub proof fn law_response_id_is_kept(state: StreamView, polls: Seq<SsePoll>)
    requires
        state.response_id is Some,
    ensures
        run(state, polls).state.response_id == state.response_id,
    decreases polls.len(),
{
    if polls.len() > 0 {
        let first = poll_step(state, polls.first());
        if !first.done {
            law_response_id_is_kept(first.state, polls.drop_first());
        }
    }
}

/// Whether an outcome announces a tool call.
pub open spec fn announces(poll: SsePoll, index: usize, block: AnthropicContentBlock) -> bool {
    &&& event_of(poll) matches Some(event)
    &&& event.kind@ == "content_block_start"@
    &&& event.index == Some(index)
    &&& event.content_block == Some(block)
    &&& block.kind@ == "tool_use"@
}

/// Whether an outcome brings a fragment of a tool call's input, and no text.
pub open spec fn brings_fragment(poll: SsePoll, index: usize, fragment: Seq<char>) -> bool {
    &&& event_of(poll) matches Some(event)
    &&& event.kind@ == "content_block_delta"@
    &&& event.index == Some(index)
    &&& event.delta matches Some(delta)
    &&& delta.text is None
    &&& text_option(delta.kind) == Some("input_json_delta"@)
    &&& text_option(delta.partial_json) == Some(fragment)
}

/// Whether an outcome says that a block is complete.
pub open spec fn stops(poll: SsePoll, index: usize) -> bool {
    &&& event_of(poll) matches Some(event)
    &&& event.kind@ == "content_block_stop"@
    &&& event.index == Some(index)
}

/// A text made of pieces, joined in order.
pub open spec fn joined(pieces: Seq<Seq<char>>) -> Seq<char>
    decreases pieces.len(),
{
    if pieces.len() == 0 {
        Seq::empty()
    } else {
        joined(pieces.drop_last()) + pieces.last()
    }
}

/// The fragments of a tool call's input are gathered, in order, and nothing is reported.
proof fn lemma_fragments(
    state: StreamView,
    index: usize,
    tool: ToolUseView,
    parts: Seq<SsePoll>,
    fragments: Seq<Seq<char>>,
)
    requires
        state.tool_uses.contains_key(index),
        state.tool_uses[index] == tool,
        parts.len() == fragments.len(),
        forall|i: int|
            0 <= i < parts.len() ==> brings_fragment(#[trigger] parts[i], index, fragments[i]),
    ensures
        run(state, parts) == (StepView {
            state: StreamView {
                tool_uses: state.tool_uses.insert(
                    index,
                    ToolUseView { partial_json: tool.partial_json + joined(fragments), ..tool },
                ),
                ..state
            },
            reports: Seq::empty(),
            done: false,
        }),
    decreases parts.len(),
{
    if parts.len() == 0 {
        assert(tool.partial_json + joined(fragments) == tool.partial_json);
        assert(state.tool_uses.insert(index, tool) == state.tool_uses);
    } else {
        let front = parts.drop_last();
        let last = seq![parts.last()];
        lemma_fragments(state, index, tool, front, fragments.drop_last());
        lemma_event_kinds();
        assert(brings_fragment(parts[parts.len() - 1], index, fragments.last()));
        assert(parts == front + last);
        lemma_run_append(state, front, last);
        let middle = run(state, front).state;
        lemma_run_one(middle, parts.last());
        let before = ToolUseView {
            partial_json: tool.partial_json + joined(fragments.drop_last()),
            ..tool
        };
        let after = ToolUseView { partial_json: tool.partial_json + joined(fragments), ..tool };
        assert(middle.tool_uses[index] == before);
        assert(before.partial_json + fragments.last() == after.partial_json);
        assert(state.tool_uses.insert(index, before).insert(index, after)
            == state.tool_uses.insert(index, after));
    }
}

/// A tool call that is announced with a name or an id, and whose input then comes in any number
/// of fragments, is reported once its block stops: with what the block announced, and with the
/// input that the joined fragments spell. Nothing is reported before, the block is then forgotten,
/// and only an input that cannot be read or printed ends the stream.
pub proof fn law_tool_call_is_assembled(
    state: StreamView,
    index: usize,
    block: AnthropicContentBlock,
    fragments: Seq<Seq<char>>,
    start: SsePoll,
    parts: Seq<SsePoll>,
    stop: SsePoll,
)
    requires
        !state.tool_uses.contains_key(index),
        block.name is Some || block.id is Some,
        announces(start, index, block),
        parts.len() == fragments.len(),
        forall|i: int|
            0 <= i < parts.len() ==> brings_fragment(#[trigger] parts[i], index, fragments[i]),
        stops(stop, index),
    ensures
        ({
            let tool = ToolUseView {
                id: text_option(block.id),
                name: text_option(block.name),
                input: tree_option(block.input),
                partial_json: joined(fragments),
            };
            let report = tool_call_report(index, tool);
            run(state, seq![start] + parts + seq![stop]) == (StepView {
                state,
                reports: seq![report],
                done: report is Err,
            })
        }),
{
    lemma_event_kinds();
    let announced = after_block_start(state, Some(index), Some(block));
    let tool = announced.tool_uses[index];
    lemma_run_one(state, start);
    lemma_fragments(announced, index, tool, parts, fragments);
    assert(tool.partial_json + joined(fragments) == joined(fragments));
    let gathered = run(announced, parts).state;
    lemma_run_append(state, seq![start], parts);
    lemma_run_append(state, seq![start] + parts, seq![stop]);
    lemma_run_one(gathered, stop);
    let end = poll_step(gathered, stop);
    assert(end.state.tool_uses == state.tool_uses);
    assert(run(state, seq![start] + parts).reports == Seq::<
        Result<ResponseEventView, ApiErrorView>,
    >::empty());
    assert(run(state, seq![start] + parts + seq![stop]).reports == end.reports);
}

/// Completion is reported by `message_stop` events, once by each and as the last thing, and by no
/// other event.
pub proof fn law_message_stop_completes(state: StreamView, event: AnthropicSseEvent)
    ensures
        event.kind@ == "message_stop"@ ==> event_step(state, event).reports.len() > 0,
        forall|i: int|
            0 <= i < event_step(state, event).reports.len() ==> is_completion(
                #[trigger] event_step(state, event).reports[i],
            ) == (event.kind@ == "message_stop"@ && i == event_step(state, event).reports.len() - 1),
{
    lemma_event_kinds();
}

} // verus!
