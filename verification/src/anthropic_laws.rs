//! What holds of every request to the Messages endpoint.

use crate::anthropic::{
    base64_image_block, body_members, call_input_given, consumed_before, content_blocks,
    conversation_messages, data_url_parts, first_call, first_output, is_call, is_output,
    item_messages, lemma_first_call, lemma_first_output, max_tokens, message, messages_before,
    output_blocks, paired, result_image_block, text_block, tool_result_block, tool_result_blocks,
    tool_result_message, tool_use_block, tool_use_message, url_image_block,
};
use crate::json::{no_members, parsed_json, reads_as, JsonTree};
use crate::models::{ContentItemView, ItemView, ModelFamily, OutputContentView, OutputView};
use crate::text::{blank, lemma_first_index_is};
use vstd::multiset::Multiset;
use vstd::prelude::*;

verus! {

/// The messages of a conversation are those of the items before `k`, those of item `k`, and those of
/// the items after it.
proof fn lemma_messages_split(items: Seq<ItemView>, k: int)
    requires
        0 <= k < items.len(),
    ensures
        (messages_before(items, k) + item_messages(items, k)).is_prefix_of(
            conversation_messages(items),
        ),
{
    lemma_messages_prefix(items, k + 1, items.len() as int);
}

proof fn lemma_messages_prefix(items: Seq<ItemView>, j: int, k: int)
    requires
        0 <= j <= k,
    ensures
        messages_before(items, j).is_prefix_of(messages_before(items, k)),
    decreases k - j,
{
    if j < k {
        lemma_messages_prefix(items, j, k - 1);
        let longer = messages_before(items, k);
        let shorter = messages_before(items, k - 1);
        let first = messages_before(items, j);
        assert(first =~= longer.subrange(0, first.len() as int));
    }
}

/// A call and its output stand next to each other in the request, whatever comes between them in the
/// conversation: first the tool use, right after it the tool result. The call is the first of its id,
/// and the output is the first of that id and comes later.
pub proof fn law_result_follows_its_call(items: Seq<ItemView>, id: Seq<char>, i: int, o: int)
    requires
        0 <= i < o < items.len(),
        is_call(items[i], id),
        is_output(items[o], id),
        forall|j: int| 0 <= j < i ==> !is_call(#[trigger] items[j], id),
        forall|j: int| 0 <= j < o ==> !is_output(#[trigger] items[j], id),
    ensures
        ({
            let messages = conversation_messages(items);
            let at = messages_before(items, i).len() as int;
            &&& at + 1 < messages.len()
            &&& messages[at] == tool_use_message(items[i]->FunctionCall_name, items[i]->arguments, id)
            &&& messages[at + 1] == tool_result_message(id, items[o]->FunctionCallOutput_output)
        }),
{
    let messages = conversation_messages(items);
    let front = messages_before(items, i) + item_messages(items, i);
    let at = messages_before(items, i).len() as int;
    lemma_first_call(items, id);
    lemma_first_output(items, id);
    assert(paired(items, id, i, o));
    lemma_messages_split(items, i);
    assert(front[at] == item_messages(items, i)[0]);
    assert(front[at + 1] == item_messages(items, i)[1]);
    assert(messages.subrange(0, front.len() as int)[at] == messages[at]);
    assert(messages.subrange(0, front.len() as int)[at + 1] == messages[at + 1]);
}

/// The message that an item states by itself: what it says, the call it makes, or the output it
/// gives.
pub open spec fn own_messages(item: ItemView) -> Seq<JsonTree> {
    match item {
        ItemView::Message { role, content, .. } => if content_blocks(content).len() == 0 {
            Seq::empty()
        } else {
            seq![message(role, content_blocks(content))]
        },
        ItemView::FunctionCall { name, arguments, call_id, .. } => seq![
            tool_use_message(name, arguments, call_id),
        ],
        ItemView::FunctionCallOutput { call_id, output } => seq![
            tool_result_message(call_id, output),
        ],
        _ => Seq::empty(),
    }
}

/// The messages that the first `k` items state by themselves, in the items' order.
pub open spec fn transcript_before(items: Seq<ItemView>, k: int) -> Seq<JsonTree>
    decreases k,
{
    if k <= 0 {
        Seq::empty()
    } else {
        transcript_before(items, k - 1) + own_messages(items[k - 1])
    }
}

/// The result of the output at index `o`.
spec fn result_at(items: Seq<ItemView>, o: int) -> JsonTree {
    tool_result_message(
        items[o]->FunctionCallOutput_call_id,
        items[o]->FunctionCallOutput_output,
    )
}

/// The results of the outputs from index `m` on that a call before index `k` has brought forward.
spec fn ahead(items: Seq<ItemView>, k: int, m: int) -> Multiset<JsonTree>
    decreases items.len() - m,
{
    if m >= items.len() {
        Multiset::empty()
    } else if consumed_before(items, k, m) {
        ahead(items, k, m + 1).insert(result_at(items, m))
    } else {
        ahead(items, k, m + 1)
    }
}

proof fn lemma_ahead_same(items: Seq<ItemView>, k: int, m: int)
    requires
        0 <= m,
        forall|o: int| consumed_before(items, k + 1, o) == #[trigger] consumed_before(items, k, o),
    ensures
        ahead(items, k + 1, m) == ahead(items, k, m),
    decreases items.len() - m,
{
    if m < items.len() {
        lemma_ahead_same(items, k, m + 1);
    }
}

proof fn lemma_ahead_more(items: Seq<ItemView>, k: int, o: int, m: int)
    requires
        0 <= m,
        0 <= o < items.len(),
        consumed_before(items, k + 1, o),
        !consumed_before(items, k, o),
        forall|x: int|
            x != o ==> consumed_before(items, k + 1, x) == #[trigger] consumed_before(items, k, x),
    ensures
        ahead(items, k + 1, m) == (if m <= o {
            ahead(items, k, m).insert(result_at(items, o))
        } else {
            ahead(items, k, m)
        }),
    decreases items.len() - m,
{
    if m < items.len() {
        lemma_ahead_more(items, k, o, m + 1);
        if m < o && consumed_before(items, k, m) {
            let a = ahead(items, k, m + 1);
            assert(a.insert(result_at(items, o)).insert(result_at(items, m)) =~= a.insert(
                result_at(items, m),
            ).insert(result_at(items, o)));
        }
    }
}

proof fn lemma_transcript(items: Seq<ItemView>, k: int)
    requires
        0 <= k <= items.len(),
    ensures
        messages_before(items, k).to_multiset() =~= transcript_before(items, k).to_multiset().add(
            ahead(items, k, k),
        ),
    decreases k,
{
    broadcast use vstd::multiset::group_multiset_axioms;
    broadcast use vstd::seq_lib::group_to_multiset_ensures;

    if k == 0 {
        assert forall|o: int| !consumed_before(items, 0, o) by {
            if consumed_before(items, 0, o) {
                lemma_first_call(items, items[o]->FunctionCallOutput_call_id);
            }
        }
        lemma_nothing_ahead(items, 0, 0);
        assert(messages_before(items, 0) =~= transcript_before(items, 0));
    } else {
        let i = k - 1;
        lemma_transcript(items, i);
        let said = messages_before(items, i);
        let own = transcript_before(items, i);
        vstd::seq_lib::lemma_multiset_commutative(said, item_messages(items, i));
        vstd::seq_lib::lemma_multiset_commutative(own, own_messages(items[i]));
        lemma_consumed_next(items, i);
        match items[i] {
            ItemView::FunctionCall { name, arguments, call_id, .. } => {
                let o = first_output(items, call_id);
                let use_message = tool_use_message(name, arguments, call_id);
                lemma_first_output(items, call_id);
                lemma_first_call(items, call_id);
                if paired(items, call_id, i, o) {
                    lemma_ahead_more(items, i, o, i);
                    lemma_ahead_more(items, i, o, k);
                    assert(!consumed_before(items, i, i));
                    assert(item_messages(items, i) =~= seq![use_message].push(result_at(items, o)));
                    lemma_pair_multiset(use_message, result_at(items, o));
                } else {
                    lemma_ahead_same(items, i, k);
                    assert(!consumed_before(items, i, i));
                    assert(item_messages(items, i) =~= own_messages(items[i]));
                }
            },
            ItemView::FunctionCallOutput { call_id, output } => {
                lemma_first_output(items, call_id);
                lemma_first_call(items, call_id);
                lemma_ahead_same(items, i, k);
                if paired(items, call_id, first_call(items, call_id), i) {
                    assert(consumed_before(items, i, i));
                    lemma_single_multiset(result_at(items, i));
                    assert(item_messages(items, i) =~= Seq::empty());
                    assert(item_messages(items, i).to_multiset() =~= Multiset::empty());
                    assert(own_messages(items[i]) =~= seq![result_at(items, i)]);
                } else {
                    assert(!consumed_before(items, i, i));
                    assert(item_messages(items, i) =~= own_messages(items[i]));
                }
            },
            _ => {
                lemma_ahead_same(items, i, k);
                assert(!consumed_before(items, i, i));
                assert(item_messages(items, i) =~= own_messages(items[i]));
            },
        }
    }
}

proof fn lemma_nothing_ahead(items: Seq<ItemView>, k: int, m: int)
    requires
        0 <= m,
        forall|o: int| !consumed_before(items, k, o),
    ensures
        ahead(items, k, m) == Multiset::<JsonTree>::empty(),
    decreases items.len() - m,
{
    if m < items.len() {
        lemma_nothing_ahead(items, k, m + 1);
    }
}

proof fn lemma_single_multiset(a: JsonTree)
    ensures
        seq![a].to_multiset() == Multiset::<JsonTree>::empty().insert(a),
{
    broadcast use vstd::seq_lib::group_to_multiset_ensures;

    assert(seq![a] =~= Seq::<JsonTree>::empty().push(a));
    assert(Seq::<JsonTree>::empty().to_multiset() =~= Multiset::empty());
}

proof fn lemma_pair_multiset(a: JsonTree, b: JsonTree)
    ensures
        seq![a].to_multiset() == Multiset::<JsonTree>::empty().insert(a),
        seq![a].push(b).to_multiset() == Multiset::<JsonTree>::empty().insert(a).insert(b),
{
    broadcast use vstd::seq_lib::group_to_multiset_ensures;

    lemma_single_multiset(a);
}

/// Over one item, at most the output that the item's call is paired with becomes consumed.
proof fn lemma_consumed_next(items: Seq<ItemView>, i: int)
    requires
        0 <= i < items.len(),
    ensures
        forall|o: int| #[trigger]
            consumed_before(items, i, o) ==> consumed_before(items, i + 1, o),
        forall|o: int|
            consumed_before(items, i + 1, o) && !#[trigger] consumed_before(items, i, o) ==> {
                &&& items[i] is FunctionCall
                &&& paired(items, items[i]->FunctionCall_call_id, i, o)
            },
        items[i] is FunctionCall ==> forall|o: int|
            paired(items, items[i]->FunctionCall_call_id, i, o) ==> {
                &&& #[trigger] consumed_before(items, i + 1, o)
                &&& !consumed_before(items, i, o)
            },
{
    assert forall|o: int|
        consumed_before(items, i + 1, o) && !#[trigger] consumed_before(items, i, o) implies {
        &&& items[i] is FunctionCall
        &&& paired(items, items[i]->FunctionCall_call_id, i, o)
    } by {
        let id = items[o]->FunctionCallOutput_call_id;
        lemma_first_call(items, id);
    }
    if items[i] is FunctionCall {
        let id = items[i]->FunctionCall_call_id;
        assert forall|o: int| paired(items, id, i, o) implies {
            &&& #[trigger] consumed_before(items, i + 1, o)
            &&& !consumed_before(items, i, o)
        } by {
            lemma_first_output(items, id);
        }
    }
}

/// The request preserves the transcript: its messages are exactly those that the items state by
/// themselves, each as often as it is stated; only the place of a result may differ.
pub proof fn law_transcript_is_preserved(items: Seq<ItemView>)
    ensures
        conversation_messages(items).to_multiset() == transcript_before(
            items,
            items.len() as int,
        ).to_multiset(),
{
    lemma_transcript(items, items.len() as int);
    assert(ahead(items, items.len() as int, items.len() as int) =~= Multiset::empty());
}

/// The place of item `k` once an item has been put in at `n`.
spec fn shifted(n: int, k: int) -> int {
    if k < n {
        k
    } else {
        k + 1
    }
}

/// What holds of a first index holds of the shifted one once an item that has nothing to do with it
/// has been put in.
proof fn lemma_shifted_firsts(
    shorter: Seq<ItemView>,
    longer: Seq<ItemView>,
    n: int,
    id: Seq<char>,
)
    requires
        0 <= n <= shorter.len(),
        longer.len() == shorter.len() + 1,
        forall|k: int|
            0 <= k < shorter.len() ==> longer[shifted(n, k)] == #[trigger] shorter[k],
        !is_call(longer[n], id),
        !is_output(longer[n], id),
    ensures
        first_call(longer, id) == shifted(n, first_call(shorter, id)),
        first_output(longer, id) == shifted(n, first_output(shorter, id)),
{
    lemma_first_call(shorter, id);
    lemma_first_call(longer, id);
    lemma_first_output(shorter, id);
    lemma_first_output(longer, id);
    assert forall|k: int| 0 <= k < longer.len() && k != n implies #[trigger] longer[k] == shorter[if k
        < n {
        k
    } else {
        k - 1
    }] by {
        let j = if k < n {
            k
        } else {
            k - 1
        };
        assert(longer[shifted(n, j)] == shorter[j]);
    }
    let c0 = first_call(shorter, id);
    let o0 = first_output(shorter, id);
    if c0 < shorter.len() {
        assert(longer[shifted(n, c0)] == shorter[c0]);
    }
    if o0 < shorter.len() {
        assert(longer[shifted(n, o0)] == shorter[o0]);
    }
    assert forall|k: int| 0 <= k < shifted(n, c0) implies !is_call(#[trigger] longer[k], id) by {}
    assert forall|k: int| 0 <= k < shifted(n, o0) implies !is_output(#[trigger] longer[k], id) by {}
}

proof fn lemma_shifted_item(shorter: Seq<ItemView>, longer: Seq<ItemView>, n: int, k: int)
    requires
        0 <= n <= shorter.len(),
        longer.len() == shorter.len() + 1,
        forall|j: int|
            0 <= j < shorter.len() ==> longer[shifted(n, j)] == #[trigger] shorter[j],
        own_messages(longer[n]).len() == 0,
        0 <= k < shorter.len(),
    ensures
        item_messages(longer, shifted(n, k)) == item_messages(shorter, k),
{
    match shorter[k] {
        ItemView::FunctionCall { call_id, .. } => {
            lemma_shifted_firsts(shorter, longer, n, call_id);
            lemma_first_output(shorter, call_id);
        },
        ItemView::FunctionCallOutput { call_id, .. } => {
            lemma_shifted_firsts(shorter, longer, n, call_id);
            lemma_first_call(shorter, call_id);
        },
        _ => {},
    }
}

proof fn lemma_silent_item(shorter: Seq<ItemView>, longer: Seq<ItemView>, n: int, k: int)
    requires
        0 <= n <= shorter.len(),
        longer.len() == shorter.len() + 1,
        forall|j: int|
            0 <= j < shorter.len() ==> longer[shifted(n, j)] == #[trigger] shorter[j],
        own_messages(longer[n]).len() == 0,
        0 <= k <= shorter.len(),
    ensures
        k <= n ==> messages_before(longer, k) == messages_before(shorter, k),
        k >= n ==> messages_before(longer, k + 1) == messages_before(shorter, k),
    decreases k,
{
    if k > 0 {
        lemma_silent_item(shorter, longer, n, k - 1);
        lemma_shifted_item(shorter, longer, n, k - 1);
    }
    if k == n {
        assert(item_messages(longer, n) =~= Seq::empty());
        assert(messages_before(longer, n + 1) =~= messages_before(longer, n));
    }
}

/// An item that states nothing does not matter, wherever in a conversation it stands: the request is the
/// same without it.
pub proof fn law_silent_items_do_not_matter(
    before: Seq<ItemView>,
    item: ItemView,
    after: Seq<ItemView>,
)
    requires
        own_messages(item).len() == 0,
    ensures
        conversation_messages(before + seq![item] + after) == conversation_messages(before + after),
{
    let shorter = before + after;
    let longer = before + seq![item] + after;
    let n = before.len() as int;
    assert forall|j: int| 0 <= j < shorter.len() implies longer[shifted(n, j)]
        == #[trigger] shorter[j] by {
        if j >= n {
            assert(longer[j + 1] == after[j - n]);
        }
    }
    lemma_silent_item(shorter, longer, n, shorter.len() as int);
}

/// The id of the call that an item makes or answers, where it does either.
pub open spec fn tool_call_id(item: ItemView) -> Option<Seq<char>> {
    match item {
        ItemView::FunctionCall { call_id, .. } => Some(call_id),
        ItemView::FunctionCallOutput { call_id, .. } => Some(call_id),
        _ => None,
    }
}

/// Whether two parts of a conversation have no call in common.
pub open spec fn unrelated(a: Seq<ItemView>, b: Seq<ItemView>) -> bool {
    forall|i: int, j: int|
        0 <= i < a.len() && 0 <= j < b.len() && tool_call_id(#[trigger] a[i]) is Some
            ==> tool_call_id(a[i]) != tool_call_id(#[trigger] b[j])
}

proof fn lemma_item_of_first_part(a: Seq<ItemView>, b: Seq<ItemView>, k: int)
    requires
        unrelated(a, b),
        0 <= k < a.len(),
    ensures
        item_messages(a + b, k) == item_messages(a, k),
{
    let all = a + b;
    match tool_call_id(a[k]) {
        Some(id) => {
            lemma_first_call(a, id);
            lemma_first_call(all, id);
            lemma_first_output(a, id);
            lemma_first_output(all, id);
            assert(forall|i: int| 0 <= i < a.len() ==> #[trigger] all[i] == a[i]);
            assert forall|i: int| a.len() <= i < all.len() implies {
                &&& !is_call(#[trigger] all[i], id)
                &&& !is_output(all[i], id)
            } by {
                assert(all[i] == b[i - a.len()]);
                assert(tool_call_id(a[k]) != tool_call_id(b[i - a.len()]));
            }
            let c = first_call(all, id);
            let o = first_output(all, id);
            if first_call(a, id) < a.len() {
                assert(is_call(all[first_call(a, id)], id));
            }
            if first_output(a, id) < a.len() {
                assert(is_output(all[first_output(a, id)], id));
            }
            if c < a.len() {
                assert(is_call(a[c], id));
            }
            if o < a.len() {
                assert(is_output(a[o], id));
            }
        },
        None => {},
    }
}

proof fn lemma_item_of_second_part(a: Seq<ItemView>, b: Seq<ItemView>, k: int)
    requires
        unrelated(a, b),
        0 <= k < b.len(),
    ensures
        item_messages(a + b, a.len() + k) == item_messages(b, k),
{
    let all = a + b;
    let n = a.len() as int;
    assert(all[n + k] == b[k]);
    match tool_call_id(b[k]) {
        Some(id) => {
            lemma_first_call(b, id);
            lemma_first_call(all, id);
            lemma_first_output(b, id);
            lemma_first_output(all, id);
            assert forall|i: int| 0 <= i < n implies {
                &&& !is_call(#[trigger] all[i], id)
                &&& !is_output(all[i], id)
            } by {
                assert(all[i] == a[i]);
                assert(tool_call_id(a[i]) is Some ==> tool_call_id(a[i]) != tool_call_id(b[k]));
            }
            assert(forall|i: int| n <= i < all.len() ==> #[trigger] all[i] == b[i - n]);
            let c = first_call(all, id);
            let o = first_output(all, id);
            let c0 = first_call(b, id);
            let o0 = first_output(b, id);
            if c0 < b.len() {
                assert(all[n + c0] == b[c0]);
            }
            if o0 < b.len() {
                assert(all[n + o0] == b[o0]);
            }
            assert(c == n + c0);
            assert(o == n + o0);
        },
        None => {},
    }
}

proof fn lemma_messages_of_parts(a: Seq<ItemView>, b: Seq<ItemView>, k: int)
    requires
        unrelated(a, b),
        0 <= k <= a.len() + b.len(),
    ensures
        messages_before(a + b, k) == (if k <= a.len() {
            messages_before(a, k)
        } else {
            conversation_messages(a) + messages_before(b, k - a.len())
        }),
    decreases k,
{
    if k > 0 {
        lemma_messages_of_parts(a, b, k - 1);
        if k <= a.len() {
            lemma_item_of_first_part(a, b, k - 1);
        } else {
            let j = k - 1 - a.len();
            lemma_item_of_second_part(a, b, j);
            assert(messages_before(b, j + 1) == messages_before(b, j) + item_messages(b, j));
            assert((conversation_messages(a) + messages_before(b, j)) + item_messages(b, j)
                =~= conversation_messages(a) + messages_before(b, j + 1));
            if j == 0 {
                assert(conversation_messages(a) + messages_before(b, 0) =~= conversation_messages(a));
            }
        }
    }
}

/// Two parts of a conversation that have no call in common are stated one after the other, each as if
/// it stood alone.
pub proof fn law_unrelated_parts_map_separately(a: Seq<ItemView>, b: Seq<ItemView>)
    requires
        unrelated(a, b),
    ensures
        conversation_messages(a + b) == conversation_messages(a) + conversation_messages(b),
{
    lemma_messages_of_parts(a, b, (a.len() + b.len()) as int);
    if b.len() == 0 {
        assert(conversation_messages(a) + conversation_messages(b) =~= conversation_messages(a));
    }
}

/// Whether a block is a block of blank text.
pub open spec fn blank_text_block(block: JsonTree) -> bool {
    exists|text: Seq<char>| blank(text) && block == #[trigger] text_block(text)
}

/// Whether a block is neither blank text nor a tool result that holds a block of blank text.
pub open spec fn free_of_blank_text(block: JsonTree) -> bool {
    &&& !blank_text_block(block)
    &&& forall|id: Seq<char>, content: Seq<JsonTree>|
        block == #[trigger] tool_result_block(id, JsonTree::Array(content)) ==> forall|i: int|
            0 <= i < content.len() ==> !blank_text_block(#[trigger] content[i])
}

/// The member of a JSON object.
pub open spec fn member(tree: JsonTree, name: Seq<char>) -> JsonTree {
    tree->Object_0[name]
}

proof fn lemma_block_literals()
    ensures
        "type"@ != "text"@,
        "type"@ != "source"@,
        "type"@ != "image_url"@,
        "type"@ != "id"@,
        "type"@ != "name"@,
        "type"@ != "input"@,
        "type"@ != "tool_use_id"@,
        "type"@ != "content"@,
        "text"@ != "image"@,
        "text"@ != "image_url"@,
        "text"@ != "tool_use"@,
        "text"@ != "tool_result"@,
        "image"@ != "tool_result"@,
        "tool_use"@ != "tool_result"@,
{
    reveal_strlit("type");
    reveal_strlit("text");
    reveal_strlit("source");
    reveal_strlit("image");
    reveal_strlit("image_url");
    reveal_strlit("id");
    reveal_strlit("name");
    reveal_strlit("input");
    reveal_strlit("content");
    reveal_strlit("tool_use");
    reveal_strlit("tool_use_id");
    reveal_strlit("tool_result");
    assert("type"@[1] == 'y');
    assert("text"@[1] == 'e');
    assert("name"@[1] == 'a');
    assert("source"@.len() == 6);
    assert("image"@.len() == 5);
    assert("image_url"@.len() == 9);
    assert("id"@.len() == 2);
    assert("input"@.len() == 5);
    assert("content"@.len() == 7);
    assert("tool_use"@.len() == 8);
    assert("tool_use_id"@.len() == 11);
    assert("tool_result"@.len() == 11);
    assert("type"@.len() == 4);
    assert("text"@.len() == 4);
}

/// What blocks of text and tool results say under the names that tell them apart.
proof fn lemma_block_members()
    ensures
        forall|text: Seq<char>|
            member(#[trigger] text_block(text), "type"@) == JsonTree::Text("text"@),
        forall|text: Seq<char>|
            member(#[trigger] text_block(text), "text"@) == JsonTree::Text(text),
        forall|id: Seq<char>, content: JsonTree|
            member(#[trigger] tool_result_block(id, content), "type"@) == JsonTree::Text(
                "tool_result"@,
            ),
        forall|id: Seq<char>, content: JsonTree|
            member(#[trigger] tool_result_block(id, content), "content"@) == content,
{
    lemma_block_literals();
}

proof fn lemma_other_blocks_are_no_text(a: Seq<char>, b: Seq<char>, input: JsonTree)
    ensures
        free_of_blank_text(base64_image_block(a, b)),
        free_of_blank_text(url_image_block(a)),
        free_of_blank_text(tool_use_block(a, b, input)),
        !blank_text_block(result_image_block(a)),
{
    lemma_block_literals();
    lemma_block_members();
    assert(member(base64_image_block(a, b), "type"@) == JsonTree::Text("image"@));
    assert(member(url_image_block(a), "type"@) == JsonTree::Text("image"@));
    assert(member(tool_use_block(a, b, input), "type"@) == JsonTree::Text("tool_use"@));
    assert(member(result_image_block(a), "type"@) == JsonTree::Text("image_url"@));
}

proof fn lemma_nonblank_text_block(text: Seq<char>)
    requires
        !blank(text),
    ensures
        free_of_blank_text(text_block(text)),
{
    lemma_block_literals();
    lemma_block_members();
}

/// No block that a message's pieces give is blank text.
pub proof fn law_messages_hold_no_blank_text(content: Seq<ContentItemView>, i: int)
    requires
        0 <= i < content_blocks(content).len(),
    ensures
        free_of_blank_text(content_blocks(content)[i]),
    decreases content.len(),
{
    if content.len() > 0 {
        let before = content_blocks(content.drop_last());
        if i < before.len() {
            law_messages_hold_no_blank_text(content.drop_last(), i);
        } else {
            match content.last() {
                ContentItemView::InputText { text } => lemma_nonblank_text_block(text),
                ContentItemView::OutputText { text } => lemma_nonblank_text_block(text),
                ContentItemView::InputImage { image_url } => {
                    match data_url_parts(image_url) {
                        Some((media_type, data)) => lemma_other_blocks_are_no_text(
                            media_type,
                            data,
                            JsonTree::Null,
                        ),
                        None => {},
                    }
                    lemma_other_blocks_are_no_text(image_url, image_url, JsonTree::Null);
                },
            }
        }
    }
}

proof fn lemma_output_blocks_hold_no_blank_text(items: Seq<OutputContentView>, i: int)
    requires
        0 <= i < output_blocks(items).len(),
    ensures
        !blank_text_block(output_blocks(items)[i]),
    decreases items.len(),
{
    if items.len() > 0 {
        let before = output_blocks(items.drop_last());
        if i < before.len() {
            lemma_output_blocks_hold_no_blank_text(items.drop_last(), i);
        } else {
            match items.last() {
                OutputContentView::InputText { text } => lemma_nonblank_text_block(text),
                OutputContentView::InputImage { image_url } => lemma_other_blocks_are_no_text(
                    image_url,
                    image_url,
                    JsonTree::Null,
                ),
            }
        }
    }
}

/// No block of a tool's result is blank text.
pub proof fn law_tool_results_hold_no_blank_text(output: OutputView, i: int)
    requires
        0 <= i < tool_result_blocks(output).len(),
    ensures
        !blank_text_block(tool_result_blocks(output)[i]),
{
    match output.content_items {
        Some(items) => {
            if output_blocks(items).len() > 0 {
                lemma_output_blocks_hold_no_blank_text(items, i);
            } else {
                lemma_nonblank_text_block(output.content);
            }
        },
        None => lemma_nonblank_text_block(output.content),
    }
}

/// Whether a tree is a message that says something: it has at least one block, and none of blank text.
pub open spec fn is_full_message(tree: JsonTree) -> bool {
    exists|role: Seq<char>, blocks: Seq<JsonTree>|
        {
            &&& tree == #[trigger] message(role, blocks)
            &&& blocks.len() > 0
            &&& forall|i: int| 0 <= i < blocks.len() ==> free_of_blank_text(#[trigger] blocks[i])
        }
}

proof fn lemma_one_block_is_full(role: Seq<char>, block: JsonTree)
    requires
        free_of_blank_text(block),
    ensures
        is_full_message(message(role, seq![block])),
{
    let blocks = seq![block];
    assert(message(role, seq![block]) == message(role, blocks));
    assert(forall|i: int| 0 <= i < blocks.len() ==> free_of_blank_text(#[trigger] blocks[i]));
}

proof fn lemma_tool_result_is_full(call_id: Seq<char>, output: OutputView)
    ensures
        is_full_message(tool_result_message(call_id, output)),
{
    let results = tool_result_blocks(output);
    let block = tool_result_block(call_id, JsonTree::Array(results));
    lemma_block_literals();
    lemma_block_members();
    assert forall|i: int| 0 <= i < results.len() implies !blank_text_block(#[trigger] results[i]) by {
        law_tool_results_hold_no_blank_text(output, i);
    }
    assert forall|id: Seq<char>, content: Seq<JsonTree>|
        block == #[trigger] tool_result_block(id, JsonTree::Array(content)) implies content
        == results by {
        assert(member(block, "content"@) == JsonTree::Array(content));
    }
    lemma_one_block_is_full("user"@, block);
}

proof fn lemma_item_messages_are_full(items: Seq<ItemView>, k: int, i: int)
    requires
        0 <= k < items.len(),
        0 <= i < item_messages(items, k).len(),
    ensures
        is_full_message(item_messages(items, k)[i]),
{
    match items[k] {
        ItemView::Message { role, content, .. } => {
            let blocks = content_blocks(content);
            assert forall|j: int| 0 <= j < blocks.len() implies free_of_blank_text(
                #[trigger] blocks[j],
            ) by {
                law_messages_hold_no_blank_text(content, j);
            }
            assert(item_messages(items, k)[i] == message(role, blocks));
        },
        ItemView::FunctionCall { name, arguments, call_id, .. } => {
            if i == 0 {
                let input = call_input_given(arguments, parsed_json(arguments));
                lemma_other_blocks_are_no_text(call_id, name, input);
                lemma_one_block_is_full("assistant"@, tool_use_block(call_id, name, input));
            } else {
                lemma_tool_result_is_full(
                    call_id,
                    items[first_output(items, call_id)]->FunctionCallOutput_output,
                );
            }
        },
        ItemView::FunctionCallOutput { call_id, output } => lemma_tool_result_is_full(call_id, output),
        _ => {},
    }
}

proof fn lemma_messages_are_full(items: Seq<ItemView>, k: int, i: int)
    requires
        0 <= k <= items.len(),
        0 <= i < messages_before(items, k).len(),
    ensures
        is_full_message(messages_before(items, k)[i]),
    decreases k,
{
    if k > 0 {
        let before = messages_before(items, k - 1);
        if i < before.len() {
            lemma_messages_are_full(items, k - 1, i);
        } else {
            lemma_item_messages_are_full(items, k - 1, i - before.len());
        }
    }
}

/// Every message of a request says something: it has at least one block, none of its blocks is blank
/// text, and no tool result in it holds a block of blank text.
pub proof fn law_messages_are_not_empty(items: Seq<ItemView>, i: int)
    requires
        0 <= i < conversation_messages(items).len(),
    ensures
        is_full_message(conversation_messages(items)[i]),
{
    lemma_messages_are_full(items, items.len() as int, i);
}

proof fn lemma_body_literals()
    ensures
        "model"@ != "system"@,
        "model"@ != "messages"@,
        "model"@ != "max_tokens"@,
        "model"@ != "stream"@,
        "model"@ != "tools"@,
        "model"@ != "tool_choice"@,
        "system"@ != "messages"@,
        "system"@ != "max_tokens"@,
        "system"@ != "stream"@,
        "system"@ != "tools"@,
        "system"@ != "tool_choice"@,
        "messages"@ != "max_tokens"@,
        "messages"@ != "stream"@,
        "messages"@ != "tools"@,
        "messages"@ != "tool_choice"@,
        "max_tokens"@ != "stream"@,
        "max_tokens"@ != "tools"@,
        "max_tokens"@ != "tool_choice"@,
        "stream"@ != "tools"@,
        "stream"@ != "tool_choice"@,
        "tools"@ != "tool_choice"@,
{
    reveal_strlit("model");
    reveal_strlit("system");
    reveal_strlit("messages");
    reveal_strlit("max_tokens");
    reveal_strlit("stream");
    reveal_strlit("tools");
    reveal_strlit("tool_choice");
    assert("model"@.len() == 5);
    assert("system"@.len() == 6);
    assert("messages"@.len() == 8);
    assert("max_tokens"@.len() == 10);
    assert("stream"@.len() == 6);
    assert("tools"@.len() == 5);
    assert("tool_choice"@.len() == 11);
    assert("model"@[0] == 'm');
    assert("tools"@[0] == 't');
    assert("system"@[1] == 'y');
    assert("stream"@[1] == 't');
}

/// What a request body says under each name: the model, the system instructions, the messages, the
/// number of tokens an answer may take, and that the answer is to be streamed; tools exactly where
/// there are any; and a choice of tool exactly where there are tools and the model may call several
/// at once. It says nothing else.
pub proof fn law_body_members(
    items: Seq<ItemView>,
    model_family: ModelFamily,
    instructions: Seq<char>,
    tools: Seq<JsonTree>,
)
    ensures
        ({
            let body = body_members(items, model_family, instructions, tools);
            &&& body.contains_pair("model"@, JsonTree::Text(model_family.slug@))
            &&& body.contains_pair("system"@, JsonTree::Text(instructions))
            &&& body.contains_pair("messages"@, JsonTree::Array(conversation_messages(items)))
            &&& body.contains_pair("max_tokens"@, JsonTree::Integer(max_tokens(model_family)))
            &&& body.contains_pair("stream"@, JsonTree::Bool(true))
            &&& body.contains_key("tools"@) == (tools.len() > 0)
            &&& tools.len() > 0 ==> body["tools"@] == JsonTree::Array(tools)
            &&& body.contains_key("tool_choice"@) == (tools.len() > 0
                && model_family.supports_parallel_tool_calls)
            &&& body.contains_key("tool_choice"@) ==> body["tool_choice"@] == JsonTree::Object(
                no_members().insert("type"@, JsonTree::Text("auto"@)),
            )
            &&& body.dom().subset_of(
                set![
                    "model"@,
                    "system"@,
                    "messages"@,
                    "max_tokens"@,
                    "stream"@,
                    "tools"@,
                    "tool_choice"@,
                ],
            )
        }),
{
    lemma_body_literals();
}

/// A base64 data URL is taken apart into what it was made of, as long as its media type holds no
/// comma.
pub proof fn law_data_url_round_trip(media_type: Seq<char>, data: Seq<char>)
    requires
        !media_type.contains(','),
    ensures
        data_url_parts("data:"@ + media_type + ";base64"@ + ","@ + data) == Some((media_type, data)),
{
    reveal_strlit("data:");
    reveal_strlit(";base64");
    reveal_strlit(",");
    let meta = media_type + ";base64"@;
    let rest = meta + ","@ + data;
    let url = "data:"@ + media_type + ";base64"@ + ","@ + data;
    assert(","@ =~= seq![',']);
    assert(url =~= "data:"@ + rest);
    assert("data:"@ =~= url.subrange(0, "data:"@.len() as int));
    assert(url.skip("data:"@.len() as int) =~= rest);
    assert forall|i: int| 0 <= i < meta.len() implies rest[i] != ',' by {
        if i < media_type.len() {
            assert(media_type[i] == rest[i]);
        } else {
            let j = i - media_type.len();
            assert(rest[i] == ";base64"@[j]);
            assert(";base64"@ =~= seq![';', 'b', 'a', 's', 'e', '6', '4']);
        }
    }
    assert(rest[meta.len() as int] == ',');
    lemma_first_index_is(rest, ',', meta.len() as int);
    assert(rest.take(meta.len() as int) =~= meta);
    assert(rest.skip(meta.len() as int + 1) =~= data);
    assert(";base64"@ =~= meta.subrange(meta.len() - ";base64"@.len(), meta.len() as int));
    assert(meta.take(meta.len() - ";base64"@.len()) =~= media_type);
}

/// A tool call whose arguments read as some JSON value is restated with that value as its input.
pub proof fn law_call_restates_its_input(
    name: Seq<char>,
    arguments: Seq<char>,
    call_id: Seq<char>,
    input: JsonTree,
)
    requires
        reads_as(arguments, input),
    ensures
        tool_use_message(name, arguments, call_id) == message(
            "assistant"@,
            seq![tool_use_block(call_id, name, input)],
        ),
{
}

} // verus!
