//! What the rewriting of shell outputs is for: which outputs become structured text, and what that text
//! says.

use crate::decimal::{decimal_digits, decimal_text, u32_of};
use crate::models::ItemView;
use crate::shell_output::{
    answered_call_id, awaits_shell_output, begins_json, is_json_space, output_text,
    reserialized, shell_call_id, structured_text, without_total_header, ExecOutputJson,
};
use crate::text::{after_prefix, split_at_first};
use crate::text_laws::{law_prefix_comes_off, law_split_parts};
use vstd::prelude::*;

verus! {

/// An output that begins with a header is taken apart into the number of lines and the rest, without the
/// empty line after the header, if there is one.
pub proof fn law_total_header_comes_off(total: Seq<char>, rest: Seq<char>)
    ensures
        ({
            let output = "Total output lines: "@ + total + seq!['\n'] + rest;
            !total.contains('\n') ==> match u32_of(total) {
                Some(lines) => if rest.len() > 0 && rest[0] == '\n' {
                    without_total_header(output) == Some((rest.drop_first(), lines))
                } else {
                    without_total_header(output) == Some((rest, lines))
                },
                None => without_total_header(output) is None,
            }
        }),
{
    let tail = total + seq!['\n'] + rest;
    let output = "Total output lines: "@ + total + seq!['\n'] + rest;
    assert(output =~= "Total output lines: "@ + tail);
    law_prefix_comes_off(output, "Total output lines: "@, tail);
    law_split_parts(tail, '\n', total, rest);
    if rest.len() > 0 {
        assert(rest.skip(1) =~= rest.drop_first());
    }
}

/// An output that does not begin with the header's words, or in which no line ends after them, has no
/// header.
pub proof fn law_other_outputs_have_no_header(output: Seq<char>)
    ensures
        without_total_header(output) matches Some((body, lines)) ==> exists|total: Seq<char>, rest: Seq<
            char,
        >|
            {
                &&& output == #[trigger] ("Total output lines: "@ + total + seq!['\n'] + rest)
                &&& !total.contains('\n')
                &&& u32_of(total) == Some(lines)
                &&& rest == body || rest == seq!['\n'] + body
            },
{
    match without_total_header(output) {
        Some((body, lines)) => {
            let tail = after_prefix(output, "Total output lines: "@)->0;
            law_prefix_comes_off(output, "Total output lines: "@, tail);
            let (total, rest) = split_at_first(tail, '\n')->0;
            law_split_parts(tail, '\n', total, rest);
            assert(output =~= "Total output lines: "@ + total + seq!['\n'] + rest);
            if rest.len() > 0 && rest[0] == '\n' {
                assert(rest =~= seq!['\n'] + rest.skip(1));
            }
        },
        None => {},
    }
}

/// Texts on lines of their own.
pub open spec fn lines(sections: Seq<Seq<char>>) -> Seq<char>
    decreases sections.len(),
{
    if sections.len() == 0 {
        Seq::empty()
    } else if sections.len() == 1 {
        sections[0]
    } else {
        lines(sections.drop_last()) + seq!['\n'] + sections.last()
    }
}

proof fn lemma_lines_push(sections: Seq<Seq<char>>, next: Seq<char>)
    requires
        sections.len() > 0,
    ensures
        lines(sections.push(next)) == lines(sections) + seq!['\n'] + next,
{
    assert(sections.push(next).drop_last() =~= sections);
}

proof fn lemma_line_literals()
    ensures
        "\nWall time: "@ == seq!['\n'] + "Wall time: "@,
        "\nTotal output lines: "@ == seq!['\n'] + "Total output lines: "@,
        "\nOutput:\n"@ == seq!['\n'] + "Output:"@ + seq!['\n'],
{
    reveal_strlit("\nWall time: ");
    reveal_strlit("Wall time: ");
    reveal_strlit("\nTotal output lines: ");
    reveal_strlit("Total output lines: ");
    reveal_strlit("\nOutput:\n");
    reveal_strlit("Output:");
    assert("\nWall time: "@ =~= seq!['\n'] + "Wall time: "@);
    assert("\nTotal output lines: "@ =~= seq!['\n'] + "Total output lines: "@);
    assert("\nOutput:\n"@ =~= seq!['\n'] + "Output:"@ + seq!['\n']);
}

/// What the structured text of a shell result says, on lines of their own: the exit code, whatever it is,
/// the wall time, the total number of output lines where the output begins with that, and the output,
/// without that beginning.
pub proof fn law_structured_text(result: ExecOutputJson)
    ensures
        ({
            let code = "Exit code: "@ + decimal_text(result.metadata.exit_code as int);
            let time = "Wall time: "@ + result.metadata.duration_seconds@ + " seconds"@;
            structured_text(result@) == match without_total_header(result.output@) {
                Some((body, total)) => lines(
                    seq![
                        code,
                        time,
                        "Total output lines: "@ + decimal_digits(total as nat),
                        "Output:"@,
                        body,
                    ],
                ),
                None => lines(seq![code, time, "Output:"@, result.output@]),
            }
        }),
{
    lemma_line_literals();
    let code = "Exit code: "@ + decimal_text(result.metadata.exit_code as int);
    let time = "Wall time: "@ + result.metadata.duration_seconds@ + " seconds"@;
    assert(lines(seq![code]) == code);
    lemma_lines_push(seq![code], time);
    assert(seq![code].push(time) =~= seq![code, time]);
    match without_total_header(result.output@) {
        Some((body, total)) => {
            let count = "Total output lines: "@ + decimal_digits(total as nat);
            lemma_lines_push(seq![code, time], count);
            assert(seq![code, time].push(count) =~= seq![code, time, count]);
            lemma_lines_push(seq![code, time, count], "Output:"@);
            assert(seq![code, time, count].push("Output:"@) =~= seq![code, time, count, "Output:"@]);
            lemma_lines_push(seq![code, time, count, "Output:"@], body);
            assert(seq![code, time, count, "Output:"@].push(body) =~= seq![
                code,
                time,
                count,
                "Output:"@,
                body,
            ]);
            assert(structured_text(result@) =~= lines(seq![code, time, count, "Output:"@, body]));
        },
        None => {
            let output = result.output@;
            lemma_lines_push(seq![code, time], "Output:"@);
            assert(seq![code, time].push("Output:"@) =~= seq![code, time, "Output:"@]);
            lemma_lines_push(seq![code, time, "Output:"@], output);
            assert(seq![code, time, "Output:"@].push(output) =~= seq![code, time, "Output:"@, output]);
            assert(structured_text(result@) =~= lines(seq![code, time, "Output:"@, output]));
        },
    }
}

/// Whether an item calls the shell or the patch tool under this id. A local shell call goes by its call
/// id, or by its own id where it has none.
pub open spec fn calls_shell(item: ItemView, call: Seq<char>) -> bool {
    match item {
        ItemView::LocalShellCall { id, call_id, .. } => call_id == Some(call) || (call_id is None && id
            == Some(call)),
        ItemView::CustomToolCall { name, call_id, .. } => name == "apply_patch"@ && call_id == call,
        ItemView::FunctionCall { name, call_id, .. } => (name == "shell"@ || name
            == "container.exec"@ || name == "apply_patch"@) && call_id == call,
        _ => false,
    }
}

/// Whether an item answers the call with this id.
pub open spec fn answers(item: ItemView, call: Seq<char>) -> bool {
    match item {
        ItemView::CustomToolCallOutput { call_id, .. } => call_id == call,
        ItemView::FunctionCallOutput { call_id, .. } => call_id == call,
        _ => false,
    }
}

/// Whether item `k` is the first to answer a call of the shell or the patch tool: it answers it, the
/// tool was called under that id before, and since then no other item has answered it.
pub open spec fn answers_shell(items: Seq<ItemView>, k: int) -> bool {
    exists|j: int, call: Seq<char>|
        {
            &&& 0 <= j < k
            &&& #[trigger] calls_shell(items[j], call)
            &&& answers(items[k], call)
            &&& forall|m: int| j < m < k ==> !answers(#[trigger] items[m], call)
        }
}

/// Whether the first character of a text that is not a space, a tab or the end of a line is an opening
/// brace or bracket.
pub open spec fn opens_like_json(text: Seq<char>) -> bool {
    exists|space: Seq<char>, rest: Seq<char>|
        {
            &&& text == #[trigger] (space + rest)
            &&& forall|i: int|
                0 <= i < space.len() ==> #[trigger] space[i] == ' ' || space[i] == '\t' || space[i]
                    == '\n' || space[i] == '\r'
            &&& rest.len() > 0 && (rest[0] == '{' || rest[0] == '[')
        }
}

proof fn lemma_opens_like_json(text: Seq<char>)
    ensures
        opens_like_json(text) == begins_json(text),
{
    if opens_like_json(text) {
        let (space, rest) = choose|space: Seq<char>, rest: Seq<char>|
            {
                &&& text == #[trigger] (space + rest)
                &&& forall|i: int|
                    0 <= i < space.len() ==> #[trigger] space[i] == ' ' || space[i] == '\t'
                        || space[i] == '\n' || space[i] == '\r'
                &&& rest.len() > 0 && (rest[0] == '{' || rest[0] == '[')
            };
        assert(text[space.len() as int] == rest[0]);
        assert forall|j: int| 0 <= j < space.len() implies is_json_space(#[trigger] text[j]) by {
            assert(text[j] == space[j]);
        }
    }
    if begins_json(text) {
        let i = choose|i: int|
            0 <= i < text.len() && (#[trigger] text[i] == '{' || text[i] == '[') && forall|j: int|
                0 <= j < i ==> is_json_space(#[trigger] text[j]);
        let space = text.take(i);
        let rest = text.skip(i);
        assert(text =~= space + rest);
        assert forall|j: int| 0 <= j < space.len() implies #[trigger] space[j] == ' ' || space[j]
            == '\t' || space[j] == '\n' || space[j] == '\r' by {
            assert(space[j] == text[j]);
            assert(is_json_space(text[j]));
        }
        assert(rest[0] == text[i]);
    }
}

proof fn lemma_answers_shell(items: Seq<ItemView>, k: int)
    requires
        0 <= k < items.len(),
    ensures
        answers_shell(items, k) == (answered_call_id(items[k]) matches Some(id)
            && awaits_shell_output(items, k, id)),
{
    if answers_shell(items, k) {
        let (j, call) = choose|j: int, call: Seq<char>|
            {
                &&& 0 <= j < k
                &&& #[trigger] calls_shell(items[j], call)
                &&& answers(items[k], call)
                &&& forall|m: int| j < m < k ==> !answers(#[trigger] items[m], call)
            };
        assert(shell_call_id(items[j]) == Some(call));
        assert(answered_call_id(items[k]) == Some(call));
        assert forall|m: int| j < m < k implies answered_call_id(#[trigger] items[m])
            != Some(call) by {
            assert(!answers(items[m], call));
        }
        assert(!crate::shell_output::answered_between(items, j, k, call));
    }
    match answered_call_id(items[k]) {
        Some(id) => {
            if awaits_shell_output(items, k, id) {
                let j = choose|j: int|
                    0 <= j < k && shell_call_id(#[trigger] items[j]) == Some(id)
                        && !crate::shell_output::answered_between(items, j, k, id);
                assert(calls_shell(items[j], id));
                assert(answers(items[k], id));
                assert forall|m: int| j < m < k implies !answers(#[trigger] items[m], id) by {
                    if answers(items[m], id) {
                        assert(answered_call_id(items[m]) == Some(id));
                    }
                }
            }
        },
        None => {},
    }
}

/// Every output that is the first to answer a call of the shell or the patch tool, that opens like JSON
/// and that decodes as a shell result is replaced by the structured text of that result, whatever the
/// result says; its id and all else about it stay.
pub proof fn law_shell_results_are_rewritten(
    items: Seq<ItemView>,
    decoded: Seq<Option<ExecOutputJson>>,
    k: int,
)
    requires
        0 <= k < items.len(),
        answers_shell(items, k),
        k < decoded.len(),
        decoded[k] is Some,
    ensures
        reserialized(items, decoded).len() == items.len(),
        match items[k] {
            ItemView::CustomToolCallOutput { call_id, output } => opens_like_json(output)
                ==> reserialized(items, decoded)[k] == (ItemView::CustomToolCallOutput {
                call_id,
                output: structured_text(decoded[k]->0@),
            }),
            ItemView::FunctionCallOutput { call_id, output } => opens_like_json(output.content) ==> {
                let after = reserialized(items, decoded)[k];
                &&& after is FunctionCallOutput
                &&& after->FunctionCallOutput_call_id == call_id
                &&& after->FunctionCallOutput_output.content == structured_text(decoded[k]->0@)
                &&& after->FunctionCallOutput_output.content_items == output.content_items
                &&& after->FunctionCallOutput_output.success == output.success
            },
            _ => true,
        },
{
    lemma_answers_shell(items, k);
    match output_text(items[k]) {
        Some(text) => lemma_opens_like_json(text),
        None => {},
    }
}

/// Every other item stays as it is: one that is no first answer to a call of the shell or the patch tool,
/// one that does not decode as a shell result, and one that does not open like JSON.
pub proof fn law_all_else_stays(
    items: Seq<ItemView>,
    decoded: Seq<Option<ExecOutputJson>>,
    k: int,
)
    requires
        0 <= k < items.len(),
        !answers_shell(items, k) || k >= decoded.len() || decoded[k] is None || (match items[k] {
            ItemView::CustomToolCallOutput { output, .. } => !opens_like_json(output),
            ItemView::FunctionCallOutput { output, .. } => !opens_like_json(output.content),
            _ => true,
        }),
    ensures
        reserialized(items, decoded)[k] == items[k],
{
    lemma_answers_shell(items, k);
    match output_text(items[k]) {
        Some(text) => lemma_opens_like_json(text),
        None => {},
    }
}

} // verus!
