//! Shell results: how the outputs of shell and patch tools, which tools report as JSON, are
//! rewritten as structured text.

use crate::decimal::{
    decimal_digits, decimal_text, format_i64, format_u64, is_digit, lemma_digits_round_trip,
    parse_u32, u32_of,
};
use crate::models::{item_views, ItemView, OutputView, ResponseItem};
use crate::text::{
    after_prefix, chars_of, lemma_first_index_is, same_text, split_at_first, split_once, strip_prefix,
};
use vstd::hash_set::StringHashSet;
use vstd::prelude::*;
use vstd::string::StringExecFns;

verus! {

/// A shell result, as a tool reports it.
#[derive(Debug, Clone, PartialEq)]
pub struct ExecOutputJson {
    pub output: String,
    pub metadata: ExecOutputMetadataJson,
}

#[derive(Debug, Clone, PartialEq)]
pub struct ExecOutputMetadataJson {
    pub exit_code: i32,
    /// The duration as it is displayed.
    pub duration_seconds: String,
}

#[verifier::ext_equal]
pub struct ExecOutputView {
    pub output: Seq<char>,
    pub exit_code: i32,
    pub duration_seconds: Seq<char>,
}

impl View for ExecOutputJson {
    type V = ExecOutputView;

    open spec fn view(&self) -> ExecOutputView {
        ExecOutputView {
            output: self.output@,
            exit_code: self.metadata.exit_code,
            duration_seconds: self.metadata.duration_seconds@,
        }
    }
}

/// Takes the header off an output that begins with one: a line with the total number of lines,
/// and the empty line after it, if there is one. What is left, and that number.
pub open spec fn without_total_header(output: Seq<char>) -> Option<(Seq<char>, u32)> {
    match after_prefix(output, "Total output lines: "@) {
        Some(rest) => match split_at_first(rest, '\n') {
            Some((total, remainder)) => match u32_of(total) {
                Some(lines) => if remainder.len() > 0 && remainder[0] == '\n' {
                    Some((remainder.skip(1), lines))
                } else {
                    Some((remainder, lines))
                },
                None => None,
            },
            None => None,
        },
        None => None,
    }
}

/// Takes off the header with the total number of output lines, where there is one.
pub fn strip_total_output_header<'a>(output: &'a str) -> (r: Option<(&'a str, u32)>)
    ensures
        match r {
            Some((rest, lines)) => without_total_header(output@) == Some((rest@, lines)),
            None => without_total_header(output@) is None,
        },
{
    match strip_prefix(output, "Total output lines: ") {
        Some(rest) => match split_once(rest, '\n') {
            Some((total, remainder)) => match parse_u32(total) {
                Some(lines) => {
                    proof {
                        reveal_strlit("\n");
                        assert("\n"@ =~= seq!['\n']);
                        assert("\n"@[0] == '\n');
                        if "\n"@.is_prefix_of(remainder@) {
                            assert(remainder@.subrange(0, 1)[0] == remainder@[0]);
                        } else if remainder@.len() > 0 && remainder@[0] == '\n' {
                            assert("\n"@ =~= remainder@.subrange(0, 1));
                        }
                    }
                    match strip_prefix(remainder, "\n") {
                        Some(body) => Some((body, lines)),
                        None => Some((remainder, lines)),
                    }
                },
                None => None,
            },
            None => None,
        },
        None => None,
    }
}

/// A shell result as structured text: its exit code, its wall time, the total number of output
/// lines where the output gives it, and the output.
pub open spec fn structured_text(result: ExecOutputView) -> Seq<char> {
    let head = "Exit code: "@ + decimal_text(result.exit_code as int) + "\nWall time: "@
        + result.duration_seconds + " seconds"@;
    match without_total_header(result.output) {
        Some((body, lines)) => head + "\nTotal output lines: "@ + decimal_digits(lines as nat)
            + "\nOutput:\n"@ + body,
        None => head + "\nOutput:\n"@ + result.output,
    }
}

/// Writes a shell result as structured text.
pub fn build_structured_output(parsed: &ExecOutputJson) -> (r: String)
    ensures
        r@ == structured_text(parsed@),
{
    let mut r = "Exit code: ".to_string();
    r.append(format_i64(parsed.metadata.exit_code as i64).as_str());
    r.append("\nWall time: ");
    r.append(parsed.metadata.duration_seconds.as_str());
    r.append(" seconds");
    match strip_total_output_header(parsed.output.as_str()) {
        Some((stripped, total_lines)) => {
            r.append("\nTotal output lines: ");
            r.append(format_u64(total_lines as u64).as_str());
            r.append("\nOutput:\n");
            r.append(stripped);
        },
        None => {
            r.append("\nOutput:\n");
            r.append(parsed.output.as_str());
        },
    }
    r
}

/// The characters that may stand before a JSON document.
pub open spec fn is_json_space(c: char) -> bool {
    c == ' ' || c == '\t' || c == '\n' || c == '\r'
}

/// Whether a text begins like a JSON object or a JSON list, as every shell result does.
pub open spec fn begins_json(text: Seq<char>) -> bool {
    exists|i: int|
        0 <= i < text.len() && (#[trigger] text[i] == '{' || text[i] == '[') && forall|j: int|
            0 <= j < i ==> is_json_space(#[trigger] text[j])
}

/// Whether a string begins like a JSON object or a JSON list.
fn looks_like_json(text: &str) -> (r: bool)
    ensures
        r == begins_json(text@),
{
    let chars = chars_of(text);
    let mut i: usize = 0;
    while i < chars.len()
        invariant
            chars@ == text@,
            i <= chars.len(),
            forall|j: int| 0 <= j < i ==> is_json_space(#[trigger] text@[j]),
        decreases chars.len() - i,
    {
        let c = chars[i];
        assert(text@[i as int] == c);
        if c == '{' || c == '[' {
            return true;
        }
        if c != ' ' && c != '\t' && c != '\n' && c != '\r' {
            assert(!is_json_space(text@[i as int]));
            return false;
        }
        i = i + 1;
    }
    false
}

/// The shell result that a text is, given what it decodes to. A text that does not even begin like a
/// JSON object or list is none.
pub open spec fn shell_result(
    text: Seq<char>,
    decoded: Option<ExecOutputView>,
) -> Option<ExecOutputView> {
    if begins_json(text) {
        decoded
    } else {
        None
    }
}

/// The structured text of an output, given what the output decodes to.
pub open spec fn structured_option(
    text: Seq<char>,
    decoded: Option<ExecOutputView>,
) -> Option<Seq<char>> {
    match shell_result(text, decoded) {
        Some(result) => Some(structured_text(result)),
        None => None,
    }
}

/// An optional shell result by its view.
pub open spec fn exec_option(decoded: Option<ExecOutputJson>) -> Option<ExecOutputView> {
    match decoded {
        Some(result) => Some(result@),
        None => None,
    }
}

/// The structured text of an output, given what the output decodes to.
pub fn parse_structured_shell_output(raw: &str, decoded: &Option<ExecOutputJson>) -> (r: Option<
    String,
>)
    ensures
        match r {
            Some(text) => structured_option(raw@, exec_option(*decoded)) == Some(text@),
            None => structured_option(raw@, exec_option(*decoded)) is None,
        },
{
    match decoded {
        Some(parsed) => if looks_like_json(raw) {
            Some(build_structured_output(parsed))
        } else {
            None
        },
        None => None,
    }
}

/// The names under which the shell is called.
pub open spec fn shell_tool_name(name: Seq<char>) -> bool {
    name == "shell"@ || name == "container.exec"@
}

/// Whether a tool is the shell.
pub fn is_shell_tool_name(name: &str) -> (r: bool)
    ensures
        r == shell_tool_name(name@),
{
    same_text(name, "shell") || same_text(name, "container.exec")
}

/// The id under which an item calls the shell or the patch tool, where it does.
pub open spec fn shell_call_id(item: ItemView) -> Option<Seq<char>> {
    match item {
        ItemView::LocalShellCall { id, call_id, .. } => match call_id {
            Some(c) => Some(c),
            None => id,
        },
        ItemView::CustomToolCall { call_id, name, .. } => if name == "apply_patch"@ {
            Some(call_id)
        } else {
            None
        },
        ItemView::FunctionCall { name, call_id, .. } => if shell_tool_name(name) || name
            == "apply_patch"@ {
            Some(call_id)
        } else {
            None
        },
        _ => None,
    }
}

/// The id of the call that an item answers, where it answers one.
pub open spec fn answered_call_id(item: ItemView) -> Option<Seq<char>> {
    match item {
        ItemView::CustomToolCallOutput { call_id, .. } => Some(call_id),
        ItemView::FunctionCallOutput { call_id, .. } => Some(call_id),
        _ => None,
    }
}

/// Whether, before item `k`, the shell or the patch tool was called under an id that no item has
/// answered since.
pub open spec fn awaits_shell_output(items: Seq<ItemView>, k: int, id: Seq<char>) -> bool {
    exists|j: int|
        0 <= j < k && shell_call_id(#[trigger] items[j]) == Some(id) && !answered_between(
            items,
            j,
            k,
            id,
        )
}

/// Whether an item after `j` and before `k` answers the call `id`.
pub open spec fn answered_between(items: Seq<ItemView>, j: int, k: int, id: Seq<char>) -> bool {
    exists|m: int| j < m < k && answered_call_id(#[trigger] items[m]) == Some(id)
}

/// An item with a new output text; an item that has no output as it is.
pub open spec fn with_output(item: ItemView, text: Seq<char>) -> ItemView {
    match item {
        ItemView::CustomToolCallOutput { call_id, .. } => ItemView::CustomToolCallOutput {
            call_id,
            output: text,
        },
        ItemView::FunctionCallOutput { call_id, output } => ItemView::FunctionCallOutput {
            call_id,
            output: OutputView { content: text, ..output },
        },
        _ => item,
    }
}

/// What the output of item `k` decodes to; nothing where the list has no entry for it.
pub open spec fn decoded_at(decoded: Seq<Option<ExecOutputJson>>, k: int) -> Option<ExecOutputView> {
    if 0 <= k < decoded.len() {
        exec_option(decoded[k])
    } else {
        None
    }
}

/// The text of an item's output, where the item is one.
pub open spec fn output_text(item: ItemView) -> Option<Seq<char>> {
    match item {
        ItemView::CustomToolCallOutput { output, .. } => Some(output),
        ItemView::FunctionCallOutput { output, .. } => Some(output.content),
        _ => None,
    }
}

/// The shell result that the output of item `k` is, where it is one.
pub open spec fn shell_result_at(
    items: Seq<ItemView>,
    decoded: Seq<Option<ExecOutputJson>>,
    k: int,
) -> Option<ExecOutputView> {
    match output_text(items[k]) {
        Some(text) => shell_result(text, decoded_at(decoded, k)),
        None => None,
    }
}

/// Item `k` once shell outputs are rewritten: the output that answers a call of the shell or the
/// patch tool becomes structured text where it decodes as a shell result. Other items stay.
pub open spec fn reserialized_item(
    items: Seq<ItemView>,
    decoded: Seq<Option<ExecOutputJson>>,
    k: int,
) -> ItemView {
    match (answered_call_id(items[k]), shell_result_at(items, decoded, k)) {
        (Some(id), Some(result)) => if awaits_shell_output(items, k, id) {
            with_output(items[k], structured_text(result))
        } else {
            items[k]
        },
        _ => items[k],
    }
}

/// A conversation once shell outputs are rewritten.
pub open spec fn reserialized(
    items: Seq<ItemView>,
    decoded: Seq<Option<ExecOutputJson>>,
) -> Seq<ItemView> {
    Seq::new(items.len(), |k: int| reserialized_item(items, decoded, k))
}

/// How the set of awaited calls changes over one item.
proof fn lemma_awaits_next(items: Seq<ItemView>, k: int, id: Seq<char>)
    requires
        0 <= k < items.len(),
    ensures
        awaits_shell_output(items, k + 1, id) == (shell_call_id(items[k]) == Some(id) || (
        awaits_shell_output(items, k, id) && answered_call_id(items[k]) != Some(id))),
{
    if shell_call_id(items[k]) == Some(id) {
        assert(!answered_between(items, k, k + 1, id));
    }
    if awaits_shell_output(items, k, id) && answered_call_id(items[k]) != Some(id) {
        let j = choose|j: int|
            0 <= j < k && shell_call_id(#[trigger] items[j]) == Some(id) && !answered_between(
                items,
                j,
                k,
                id,
            );
        assert(!answered_between(items, j, k + 1, id));
    }
    if awaits_shell_output(items, k + 1, id) {
        let j = choose|j: int|
            0 <= j < k + 1 && shell_call_id(#[trigger] items[j]) == Some(id) && !answered_between(
                items,
                j,
                k + 1,
                id,
            );
        if j < k {
            assert(answered_call_id(items[k]) != Some(id));
            if answered_between(items, j, k, id) {
                let m = choose|m: int|
                    j < m < k && answered_call_id(#[trigger] items[m]) == Some(id);
                assert(answered_between(items, j, k + 1, id));
            }
            assert(awaits_shell_output(items, k, id));
        }
    }
}

/// The id under which an item calls the shell or the patch tool.
fn find_shell_call_id(item: &ResponseItem) -> (r: Option<String>)
    ensures
        match r {
            Some(id) => shell_call_id(item@) == Some(id@),
            None => shell_call_id(item@) is None,
        },
{
    match item {
        ResponseItem::LocalShellCall { id, call_id, .. } => match call_id {
            Some(c) => Some(c.clone()),
            None => match id {
                Some(i) => Some(i.clone()),
                None => None,
            },
        },
        ResponseItem::CustomToolCall { call_id, name, .. } => {
            if same_text(name.as_str(), "apply_patch") {
                Some(call_id.clone())
            } else {
                None
            }
        },
        ResponseItem::FunctionCall { name, call_id, .. } => {
            if is_shell_tool_name(name.as_str()) || same_text(name.as_str(), "apply_patch") {
                Some(call_id.clone())
            } else {
                None
            }
        },
        _ => None,
    }
}

/// The id of the call that an item answers.
fn find_answered_call_id(item: &ResponseItem) -> (r: Option<&str>)
    ensures
        match r {
            Some(id) => answered_call_id(item@) == Some(id@),
            None => answered_call_id(item@) is None,
        },
{
    match item {
        ResponseItem::CustomToolCallOutput { call_id, .. } => Some(call_id.as_str()),
        ResponseItem::FunctionCallOutput { call_id, .. } => Some(call_id.as_str()),
        _ => None,
    }
}

/// The text of an item's output.
fn find_output_text(item: &ResponseItem) -> (r: Option<&str>)
    ensures
        match r {
            Some(text) => output_text(item@) == Some(text@),
            None => output_text(item@) is None,
        },
{
    match item {
        ResponseItem::CustomToolCallOutput { output, .. } => Some(output.as_str()),
        ResponseItem::FunctionCallOutput { output, .. } => Some(output.content.as_str()),
        _ => None,
    }
}

fn replace_output(item: &mut ResponseItem, text: String)
    ensures
        final(item)@ == with_output(old(item)@, text@),
{
    match item {
        ResponseItem::CustomToolCallOutput { output, .. } => {
            *output = text;
        },
        ResponseItem::FunctionCallOutput { output, .. } => {
            output.content = text;
        },
        _ => {},
    }
}

/// Rewrites shell outputs in place, given what each item's output decodes to.
pub fn reserialize_shell_outputs(
    items: &mut Vec<ResponseItem>,
    decoded: &Vec<Option<ExecOutputJson>>,
)
    ensures
        item_views(final(items)@) == reserialized(item_views(old(items)@), decoded@),
{
    let ghost before = item_views(items@);
    let mut shell_call_ids = StringHashSet::new();
    let mut k: usize = 0;
    while k < items.len()
        invariant
            k <= items.len(),
            before.len() == items.len(),
            forall|id: Seq<char>|
                #[trigger] shell_call_ids@.contains(id) == awaits_shell_output(
                    before,
                    k as int,
                    id,
                ),
            forall|i: int|
                0 <= i < k ==> (#[trigger] items@[i])@ == reserialized_item(before, decoded@, i),
            forall|i: int| k <= i < items.len() ==> (#[trigger] items@[i])@ == before[i],
        decreases items.len() - k,
    {
        proof {
            assert(items@[k as int]@ == before[k as int]);
            assert forall|id: Seq<char>| true implies awaits_shell_output(before, k + 1, id) == (
            shell_call_id(before[k as int]) == Some(id) || (awaits_shell_output(
                before,
                k as int,
                id,
            ) && answered_call_id(before[k as int]) != Some(id))) by {
                lemma_awaits_next(before, k as int, id);
            }
        }
        let awaited: bool = match find_answered_call_id(&items[k]) {
            Some(id) => shell_call_ids.remove(id),
            None => false,
        };
        match find_shell_call_id(&items[k]) {
            Some(id) => {
                shell_call_ids.insert(id);
            },
            None => {},
        }
        if awaited && k < decoded.len() {
            let structured: Option<String> = match find_output_text(&items[k]) {
                Some(raw) => parse_structured_shell_output(raw, &decoded[k]),
                None => None,
            };
            match structured {
                Some(text) => replace_output(&mut items[k], text),
                None => {},
            }
        }
        k = k + 1;
    }
    assert(item_views(items@) =~= reserialized(before, decoded@));
}

/// Rewriting shell outputs changes nothing but output texts: every item keeps its place, its kind, its
/// ids and whatever else it holds, and an item that is no output stays as it is.
pub proof fn law_only_outputs_are_rewritten(
    items: Seq<ItemView>,
    decoded: Seq<Option<ExecOutputJson>>,
    k: int,
)
    requires
        0 <= k < items.len(),
    ensures
        reserialized(items, decoded).len() == items.len(),
        answered_call_id(items[k]) is None ==> reserialized(items, decoded)[k] == items[k],
        exists|text: Seq<char>| reserialized(items, decoded)[k] == #[trigger] with_output(items[k], text),
        answered_call_id(reserialized(items, decoded)[k]) == answered_call_id(items[k]),
        shell_call_id(reserialized(items, decoded)[k]) == shell_call_id(items[k]),
{
    let after = reserialized(items, decoded)[k];
    let same = match items[k] {
        ItemView::CustomToolCallOutput { output, .. } => output,
        ItemView::FunctionCallOutput { output, .. } => output.content,
        _ => Seq::empty(),
    };
    assert(items[k] == with_output(items[k], same));
    match shell_result_at(items, decoded, k) {
        Some(result) => {
            assert(after == with_output(items[k], structured_text(result)) || after == with_output(
                items[k],
                same,
            ));
        },
        None => {},
    }
}

/// One call has one answer: once an output has answered a call, a later output of that id stays as it
/// is, unless the shell or the patch tool was called under the id again in between.
pub proof fn law_call_is_answered_once(
    items: Seq<ItemView>,
    decoded: Seq<Option<ExecOutputJson>>,
    first: int,
    later: int,
    id: Seq<char>,
)
    requires
        0 <= first < later < items.len(),
        answered_call_id(items[first]) == Some(id),
        answered_call_id(items[later]) == Some(id),
        forall|j: int| first < j < later ==> shell_call_id(#[trigger] items[j]) != Some(id),
    ensures
        reserialized(items, decoded)[later] == items[later],
{
    if awaits_shell_output(items, later, id) {
        let j = choose|j: int|
            0 <= j < later && shell_call_id(#[trigger] items[j]) == Some(id) && !answered_between(
                items,
                j,
                later,
                id,
            );
        assert(j <= first);
        assert(shell_call_id(items[first]) is None);
        assert(answered_between(items, j, later, id));
    }
}

/// An output that answers no call of the shell or the patch tool stays as it is.
pub proof fn law_other_outputs_stay(
    items: Seq<ItemView>,
    decoded: Seq<Option<ExecOutputJson>>,
    k: int,
    id: Seq<char>,
)
    requires
        0 <= k < items.len(),
        answered_call_id(items[k]) == Some(id),
        forall|j: int| 0 <= j < k ==> shell_call_id(#[trigger] items[j]) != Some(id),
    ensures
        reserialized(items, decoded)[k] == items[k],
{
}

/// Whether the output of item `k` is one that is rewritten.
pub open spec fn is_rewritten(
    items: Seq<ItemView>,
    decoded: Seq<Option<ExecOutputJson>>,
    k: int,
) -> bool {
    &&& shell_result_at(items, decoded, k) is Some
    &&& answered_call_id(items[k]) matches Some(id) && awaits_shell_output(items, k, id)
}

/// Which calls await an output depends on the ids in the items alone.
proof fn lemma_awaits_same(a: Seq<ItemView>, b: Seq<ItemView>, k: int, id: Seq<char>)
    requires
        forall|j: int| 0 <= j < k ==> shell_call_id(#[trigger] a[j]) == shell_call_id(b[j]),
        forall|j: int| 0 <= j < k ==> answered_call_id(#[trigger] a[j]) == answered_call_id(b[j]),
        awaits_shell_output(a, k, id),
    ensures
        awaits_shell_output(b, k, id),
{
    let j = choose|j: int|
        0 <= j < k && shell_call_id(#[trigger] a[j]) == Some(id) && !answered_between(a, j, k, id);
    if answered_between(b, j, k, id) {
        let m = choose|m: int| j < m < k && answered_call_id(#[trigger] b[m]) == Some(id);
        assert(answered_call_id(a[m]) == Some(id));
    }
    assert(shell_call_id(b[j]) == Some(id));
}

/// Structured text does not begin like JSON.
proof fn lemma_structured_text_is_no_json(result: ExecOutputView)
    ensures
        !begins_json(structured_text(result)),
{
    let text = structured_text(result);
    reveal_strlit("Exit code: ");
    assert("Exit code: "@.len() == 11);
    assert(text[0] == "Exit code: "@[0]);
    assert(text[0] == 'E');
    if begins_json(text) {
        let i = choose|i: int|
            0 <= i < text.len() && (#[trigger] text[i] == '{' || text[i] == '[') && forall|j: int|
                0 <= j < i ==> is_json_space(#[trigger] text[j]);
        assert(i > 0);
        assert(is_json_space(text[0]));
    }
}

/// Rewriting shell outputs a second time changes nothing, whatever the rewritten texts are said to decode
/// to, as long as every output that stayed is said to decode as before.
pub proof fn law_second_rewriting_changes_nothing(
    items: Seq<ItemView>,
    first: Seq<Option<ExecOutputJson>>,
    second: Seq<Option<ExecOutputJson>>,
)
    requires
        forall|k: int|
            0 <= k < items.len() && !#[trigger] is_rewritten(items, first, k) ==> decoded_at(second, k)
                == decoded_at(first, k),
    ensures
        reserialized(reserialized(items, first), second) == reserialized(items, first),
{
    let once = reserialized(items, first);
    assert forall|k: int| 0 <= k < items.len() implies {
        &&& shell_call_id(#[trigger] once[k]) == shell_call_id(items[k])
        &&& answered_call_id(once[k]) == answered_call_id(items[k])
    } by {
        law_only_outputs_are_rewritten(items, first, k);
    }
    assert forall|k: int| 0 <= k < items.len() implies reserialized_item(once, second, k)
        == #[trigger] once[k] by {
        match answered_call_id(items[k]) {
            Some(id) => {
                if awaits_shell_output(once, k, id) {
                    lemma_awaits_same(once, items, k, id);
                }
                if is_rewritten(items, first, k) {
                    let result = shell_result_at(items, first, k)->0;
                    lemma_structured_text_is_no_json(result);
                    assert(once[k] == with_output(items[k], structured_text(result)));
                    assert(output_text(once[k]) == Some(structured_text(result)));
                    assert(shell_result_at(once, second, k) is None);
                } else {
                    assert(once[k] == items[k]);
                }
                assert(answered_call_id(once[k]) == Some(id));
            },
            None => {
                assert(answered_call_id(once[k]) is None);
            },
        }
    }
    assert(reserialized(once, second) =~= once);
}

/// Whether a list says what the outputs of a conversation decode to, under a given reading of texts.
pub open spec fn decodes(
    items: Seq<ItemView>,
    decoded: Seq<Option<ExecOutputJson>>,
    reading: spec_fn(Seq<char>) -> Option<ExecOutputView>,
) -> bool {
    forall|k: int|
        0 <= k < items.len() ==> #[trigger] decoded_at(decoded, k) == match output_text(items[k]) {
            Some(text) => reading(text),
            None => None,
        }
}

/// Whatever the reading of texts as shell results is: a conversation that is decoded, rewritten, decoded
/// again and rewritten again is as it was after the first rewriting.
pub proof fn law_rewriting_twice_is_rewriting_once(
    items: Seq<ItemView>,
    first: Seq<Option<ExecOutputJson>>,
    second: Seq<Option<ExecOutputJson>>,
    reading: spec_fn(Seq<char>) -> Option<ExecOutputView>,
)
    requires
        decodes(items, first, reading),
        decodes(reserialized(items, first), second, reading),
    ensures
        reserialized(reserialized(items, first), second) == reserialized(items, first),
{
    let once = reserialized(items, first);
    assert forall|k: int|
        0 <= k < items.len() && !#[trigger] is_rewritten(items, first, k) implies decoded_at(second, k)
        == decoded_at(first, k) by {
        assert(once[k] == items[k]);
    }
    law_second_rewriting_changes_nothing(items, first, second);
}

/// A header that states a number of lines comes off whole, and gives that number back.
#[verifier::spinoff_prover]
pub proof fn law_total_header_round_trip(lines: u32, body: Seq<char>)
    ensures
        without_total_header(
            "Total output lines: "@ + decimal_digits(lines as nat) + "\n"@ + "\n"@ + body,
        ) == Some((body, lines)),
{
    reveal_strlit("\n");
    let digits = decimal_digits(lines as nat);
    let prefix = "Total output lines: "@;
    let rest = digits + "\n"@ + "\n"@ + body;
    let output = prefix + digits + "\n"@ + "\n"@ + body;
    assert("\n"@ =~= seq!['\n']);
    assert(output =~= prefix + rest);
    assert(prefix =~= output.subrange(0, prefix.len() as int));
    assert(output.skip(prefix.len() as int) =~= rest);
    lemma_digits_round_trip(lines as nat);
    assert forall|i: int| 0 <= i < digits.len() implies rest[i] != '\n' by {
        assert(rest[i] == digits[i]);
        assert(is_digit(digits[i]));
    }
    assert(rest[digits.len() as int] == '\n');
    lemma_first_index_is(rest, '\n', digits.len() as int);
    assert(rest.take(digits.len() as int) =~= digits);
    let remainder = rest.skip(digits.len() as int + 1);
    assert(remainder =~= "\n"@ + body);
    assert(remainder.skip(1) =~= body);
    assert(is_digit(digits[0]));
}

} // verus!
