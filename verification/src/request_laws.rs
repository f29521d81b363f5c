//! What a request says of a prompt, told from the prompt's parts: what each piece of a message, each
//! tool output and each item gives, and how the parts are put together.

use crate::anthropic::{
    content_blocks, conversation_messages, data_url_parts, first_call, first_output, is_call,
    is_output, item_messages, lemma_first_call, lemma_first_output, max_tokens, messages_before,
    output_blocks, paired, tool_result_blocks, tool_result_message, tool_use_message,
};
use crate::anthropic_laws::law_data_url_round_trip;
use crate::json::{parsed_json, JsonTree};
use crate::models::{
    item_views, ContentItem, ContentItemView, FunctionCallOutputContentItem, ItemView, ModelFamily,
    OutputContentView, OutputView, ResponseItem,
};
use crate::prompt::Prompt;
use crate::shell_output::reserialized;
use crate::text::is_white_space;
use crate::text_laws::{law_prefix_comes_off, law_split_parts, law_suffix_comes_off};
use crate::tools::ToolSpec;
use vstd::prelude::*;

verus! {

/// An answer may take a quarter of the tokens at which the conversation is compacted, or of the context
/// window where no such number is known, or of 200,000 where neither is; rounded down, but at least
/// one token, and at most 64,000.
pub proof fn law_answer_takes_a_quarter(model: ModelFamily, limit: int)
    requires
        model.auto_compact_token_limit matches Some(tokens) ==> limit == tokens,
        model.auto_compact_token_limit is None ==> (model.context_window matches Some(window) ==> limit
            == window),
        model.auto_compact_token_limit is None && model.context_window is None ==> limit == 200_000,
    ensures
        4 <= limit < 256_000 ==> 4 * max_tokens(model) <= limit < 4 * max_tokens(model) + 4,
        limit < 4 ==> max_tokens(model) == 1,
        limit >= 256_000 ==> max_tokens(model) == 64_000,
{
}

/// A URL is a base64 data URL exactly if it is made of `data:`, a media type without a comma,
/// `;base64,` and the data; and these two are what it is taken apart into.
pub proof fn law_data_url_is_taken_apart(url: Seq<char>, media_type: Seq<char>, data: Seq<char>)
    ensures
        data_url_parts(url) == Some((media_type, data)) <==> {
            &&& url == "data:"@ + media_type + ";base64"@ + ","@ + data
            &&& !media_type.contains(',')
        },
{
    reveal_strlit(",");
    assert(","@ =~= seq![',']);
    if url == "data:"@ + media_type + ";base64"@ + ","@ + data && !media_type.contains(',') {
        law_data_url_round_trip(media_type, data);
    }
    if data_url_parts(url) == Some((media_type, data)) {
        let rest = url.skip("data:"@.len() as int);
        law_prefix_comes_off(url, "data:"@, rest);
        let (meta, tail) = crate::text::split_at_first(rest, ',')->0;
        law_split_parts(rest, ',', meta, tail);
        law_suffix_comes_off(meta, media_type, ";base64"@);
        assert(meta == media_type + ";base64"@);
        assert(url =~= "data:"@ + media_type + ";base64"@ + ","@ + data);
        if media_type.contains(',') {
            let i = choose|i: int| 0 <= i < media_type.len() && media_type[i] == ',';
            assert(meta[i] == ',');
            assert(meta.contains(','));
        }
    }
}

/// Whether a JSON object has a member.
pub open spec fn says(tree: JsonTree, name: Seq<char>, value: JsonTree) -> bool {
    tree is Object && tree->Object_0.contains_pair(name, value)
}

/// Whether a tree is a JSON object with members of exactly these names.
pub open spec fn has_names(tree: JsonTree, names: Set<Seq<char>>) -> bool {
    tree is Object && tree->Object_0.dom() =~= names
}

/// Whether a text has anything in it but white space.
pub open spec fn has_ink(text: Seq<char>) -> bool {
    exists|i: int| 0 <= i < text.len() && !is_white_space(#[trigger] text[i])
}

/// Whether a tree is a block of this text.
pub open spec fn is_text_of(block: JsonTree, text: Seq<char>) -> bool {
    &&& has_names(block, set!["type"@, "text"@])
    &&& says(block, "type"@, JsonTree::Text("text"@))
    &&& says(block, "text"@, JsonTree::Text(text))
}

/// Whether a tree is a block with the image at this URL.
pub open spec fn is_image_at(block: JsonTree, url: Seq<char>) -> bool {
    let source = block->Object_0["source"@];
    &&& has_names(block, set!["type"@, "source"@])
    &&& says(block, "type"@, JsonTree::Text("image"@))
    &&& has_names(source, set!["type"@, "url"@])
    &&& says(source, "type"@, JsonTree::Text("url"@))
    &&& says(source, "url"@, JsonTree::Text(url))
}

/// Whether a tree is a block with this image itself.
pub open spec fn is_image_of(block: JsonTree, media_type: Seq<char>, data: Seq<char>) -> bool {
    let source = block->Object_0["source"@];
    &&& has_names(block, set!["type"@, "source"@])
    &&& says(block, "type"@, JsonTree::Text("image"@))
    &&& has_names(source, set!["type"@, "media_type"@, "data"@])
    &&& says(source, "type"@, JsonTree::Text("base64"@))
    &&& says(source, "media_type"@, JsonTree::Text(media_type))
    &&& says(source, "data"@, JsonTree::Text(data))
}

/// Whether a tree is a block with an image in a tool's result.
pub open spec fn is_result_image(block: JsonTree, url: Seq<char>) -> bool {
    let target = block->Object_0["image_url"@];
    &&& has_names(block, set!["type"@, "image_url"@])
    &&& says(block, "type"@, JsonTree::Text("image_url"@))
    &&& has_names(target, set!["url"@])
    &&& says(target, "url"@, JsonTree::Text(url))
}

proof fn lemma_names()
    ensures
        "type"@ != "text"@,
        "type"@ != "source"@,
        "type"@ != "url"@,
        "type"@ != "media_type"@,
        "type"@ != "data"@,
        "media_type"@ != "data"@,
        "type"@ != "image_url"@,
        "type"@ != "id"@,
        "type"@ != "name"@,
        "type"@ != "input"@,
        "id"@ != "name"@,
        "id"@ != "input"@,
        "name"@ != "input"@,
        "type"@ != "tool_use_id"@,
        "type"@ != "content"@,
        "tool_use_id"@ != "content"@,
        "role"@ != "content"@,
{
    reveal_strlit("type");
    reveal_strlit("text");
    reveal_strlit("source");
    reveal_strlit("url");
    reveal_strlit("media_type");
    reveal_strlit("data");
    reveal_strlit("image_url");
    reveal_strlit("id");
    reveal_strlit("name");
    reveal_strlit("input");
    reveal_strlit("tool_use_id");
    reveal_strlit("content");
    reveal_strlit("role");
    assert("type"@.len() == 4);
    assert("text"@.len() == 4);
    assert("name"@.len() == 4);
    assert("data"@.len() == 4);
    assert("role"@.len() == 4);
    assert("type"@[0] == 't');
    assert("type"@[1] == 'y');
    assert("text"@[1] == 'e');
    assert("name"@[0] == 'n');
    assert("data"@[0] == 'd');
    assert("source"@.len() == 6);
    assert("url"@.len() == 3);
    assert("media_type"@.len() == 10);
    assert("image_url"@.len() == 9);
    assert("id"@.len() == 2);
    assert("input"@.len() == 5);
    assert("tool_use_id"@.len() == 11);
    assert("content"@.len() == 7);
}

/// Every piece of a message is kept, in order: the blocks of two lists of pieces put together are those
/// of the first followed by those of the second, and no pieces have no blocks.
pub proof fn law_every_piece_is_kept(a: Seq<ContentItemView>, b: Seq<ContentItemView>)
    ensures
        content_blocks(a + b) == content_blocks(a) + content_blocks(b),
        content_blocks(Seq::<ContentItemView>::empty()).len() == 0,
    decreases b.len(),
{
    if b.len() == 0 {
        assert(a + b =~= a);
        assert(content_blocks(a) + content_blocks(b) =~= content_blocks(a));
    } else {
        law_every_piece_is_kept(a, b.drop_last());
        assert((a + b).drop_last() =~= a + b.drop_last());
        assert((a + b).last() == b.last());
        assert(content_blocks(a + b) =~= content_blocks(a) + content_blocks(b));
    }
}

proof fn lemma_one_piece(item: ContentItemView)
    ensures
        content_blocks(seq![item]) == (match crate::anthropic::content_block(item) {
            Some(block) => seq![block],
            None => Seq::empty(),
        }),
{
    let one = seq![item];
    assert(one.drop_last() =~= Seq::<ContentItemView>::empty());
    assert(content_blocks(one.drop_last()) =~= Seq::<JsonTree>::empty());
    assert(one.last() == item);
    assert(content_blocks(one) =~= (match crate::anthropic::content_block(item) {
        Some(block) => seq![block],
        None => Seq::empty(),
    }));
}

/// A text in a message, the user's or the model's, gives one block, which holds the whole text, unless
/// there is nothing but white space in it: then it gives none.
pub proof fn law_text_piece(text: Seq<char>)
    ensures
        ({
            let input = content_blocks(seq![ContentItemView::InputText { text }]);
            let output = content_blocks(seq![ContentItemView::OutputText { text }]);
            &&& has_ink(text) ==> input.len() == 1 && is_text_of(input[0], text)
            &&& has_ink(text) ==> output.len() == 1 && is_text_of(output[0], text)
            &&& !has_ink(text) ==> input.len() == 0 && output.len() == 0
        }),
{
    lemma_names();
    lemma_one_piece(ContentItemView::InputText { text });
    lemma_one_piece(ContentItemView::OutputText { text });
    if !has_ink(text) {
        assert forall|i: int| 0 <= i < text.len() implies is_white_space(#[trigger] text[i]) by {}
    }
}

/// An image in a message gives one block: with its URL, or, for a base64 data URL, with what the URL
/// holds. A data URL of another make gives none.
pub proof fn law_image_piece(url: Seq<char>)
    ensures
        ({
            let blocks = content_blocks(seq![ContentItemView::InputImage { image_url: url }]);
            &&& !"data:"@.is_prefix_of(url) ==> blocks.len() == 1 && is_image_at(blocks[0], url)
            &&& forall|media_type: Seq<char>, data: Seq<char>|
                url == #[trigger] ("data:"@ + media_type + ";base64"@ + ","@ + data)
                    && !media_type.contains(',') ==> blocks.len() == 1 && is_image_of(
                    blocks[0],
                    media_type,
                    data,
                )
            &&& "data:"@.is_prefix_of(url) && (forall|media_type: Seq<char>, data: Seq<char>|
                url == #[trigger] ("data:"@ + media_type + ";base64"@ + ","@ + data)
                    ==> media_type.contains(',')) ==> blocks.len() == 0
        }),
{
    lemma_names();
    lemma_one_piece(ContentItemView::InputImage { image_url: url });
    let blocks = content_blocks(seq![ContentItemView::InputImage { image_url: url }]);
    assert forall|media_type: Seq<char>, data: Seq<char>|
        url == #[trigger] ("data:"@ + media_type + ";base64"@ + ","@ + data)
            && !media_type.contains(',') implies blocks.len() == 1 && is_image_of(
        blocks[0],
        media_type,
        data,
    ) by {
        law_data_url_is_taken_apart(url, media_type, data);
        let rest = media_type + ";base64"@ + ","@ + data;
        assert(url =~= "data:"@ + rest);
        law_prefix_comes_off(url, "data:"@, rest);
    }
    match data_url_parts(url) {
        Some((media_type, data)) => {
            law_data_url_is_taken_apart(url, media_type, data);
            assert(url == "data:"@ + media_type + ";base64"@ + ","@ + data);
        },
        None => {},
    }
}

/// A tool's output with these pieces and this text.
pub open spec fn output_of(
    content: Seq<char>,
    pieces: Option<Seq<OutputContentView>>,
    success: Option<bool>,
) -> OutputView {
    OutputView { content, content_items: pieces, success }
}

proof fn lemma_output_pieces(a: Seq<OutputContentView>, b: Seq<OutputContentView>)
    ensures
        output_blocks(a + b) == output_blocks(a) + output_blocks(b),
    decreases b.len(),
{
    if b.len() == 0 {
        assert(a + b =~= a);
        assert(output_blocks(a) + output_blocks(b) =~= output_blocks(a));
    } else {
        lemma_output_pieces(a, b.drop_last());
        assert((a + b).drop_last() =~= a + b.drop_last());
        assert((a + b).last() == b.last());
        assert(output_blocks(a + b) =~= output_blocks(a) + output_blocks(b));
    }
}

/// Every piece of a tool's output is kept, in order, and where the pieces give anything, the text beside
/// them does not count; where they give nothing, the output is as if it had no pieces. Whether the
/// tool succeeded makes no difference.
pub proof fn law_every_output_piece_is_kept(
    content: Seq<char>,
    a: Seq<OutputContentView>,
    b: Seq<OutputContentView>,
    success: Option<bool>,
)
    ensures
        ({
            let none = Seq::<char>::empty();
            let of_a = tool_result_blocks(output_of(none, Some(a), None));
            let of_b = tool_result_blocks(output_of(none, Some(b), None));
            &&& tool_result_blocks(output_of(none, Some(a + b), None)) == of_a + of_b
            &&& tool_result_blocks(output_of(content, Some(a), success)) == (if of_a.len() > 0 {
                of_a
            } else {
                tool_result_blocks(output_of(content, None, None))
            })
            &&& tool_result_blocks(output_of(content, None, success)) == tool_result_blocks(
                output_of(content, None, None),
            )
        }),
{
    lemma_output_pieces(a, b);
    let none = Seq::<char>::empty();
    assert(tool_result_blocks(output_of(none, Some(a), None)) =~= output_blocks(a));
    assert(tool_result_blocks(output_of(none, Some(b), None)) =~= output_blocks(b));
    assert(tool_result_blocks(output_of(none, Some(a + b), None)) =~= output_blocks(a + b));
}

/// A text in a tool's output, whether it is the output or a piece of it, gives one block, which holds the
/// whole text, unless there is nothing but white space in it: then it gives none. An image piece gives
/// one block, with its URL.
pub proof fn law_output_pieces(text: Seq<char>)
    ensures
        ({
            let none = Seq::<char>::empty();
            let whole = tool_result_blocks(output_of(text, None, None));
            let piece = tool_result_blocks(
                output_of(none, Some(seq![OutputContentView::InputText { text }]), None),
            );
            let image = tool_result_blocks(
                output_of(none, Some(seq![OutputContentView::InputImage { image_url: text }]), None),
            );
            &&& has_ink(text) ==> whole.len() == 1 && is_text_of(whole[0], text)
            &&& has_ink(text) ==> piece.len() == 1 && is_text_of(piece[0], text)
            &&& !has_ink(text) ==> whole.len() == 0 && piece.len() == 0
            &&& image.len() == 1 && is_result_image(image[0], text)
        }),
{
    lemma_names();
    let a = seq![OutputContentView::InputText { text }];
    let b = seq![OutputContentView::InputImage { image_url: text }];
    assert(a.drop_last() =~= Seq::<OutputContentView>::empty());
    assert(b.drop_last() =~= Seq::<OutputContentView>::empty());
    assert(output_blocks(a.drop_last()).len() == 0);
    assert(output_blocks(b.drop_last()).len() == 0);
    assert(a.last() == OutputContentView::InputText { text });
    assert(b.last() == OutputContentView::InputImage { image_url: text });
    if !has_ink(text) {
        assert forall|i: int| 0 <= i < text.len() implies is_white_space(#[trigger] text[i]) by {}
    }
}

/// Whether a tree is a message by this speaker with these blocks.
pub open spec fn is_message(tree: JsonTree, role: Seq<char>, blocks: Seq<JsonTree>) -> bool {
    &&& has_names(tree, set!["role"@, "content"@])
    &&& says(tree, "role"@, JsonTree::Text(role))
    &&& says(tree, "content"@, JsonTree::Array(blocks))
}

/// Whether a tree is the message by which the assistant calls a tool, with this block.
pub open spec fn is_tool_use(
    tree: JsonTree,
    id: Seq<char>,
    name: Seq<char>,
    input: JsonTree,
) -> bool {
    exists|block: JsonTree|
        {
            &&& #[trigger] is_message(tree, "assistant"@, seq![block])
            &&& has_names(block, set!["type"@, "id"@, "name"@, "input"@])
            &&& says(block, "type"@, JsonTree::Text("tool_use"@))
            &&& says(block, "id"@, JsonTree::Text(id))
            &&& says(block, "name"@, JsonTree::Text(name))
            &&& says(block, "input"@, input)
        }
}

/// Whether a tree is the message by which the user's side answers a tool call, with these blocks.
pub open spec fn is_tool_result(tree: JsonTree, id: Seq<char>, blocks: Seq<JsonTree>) -> bool {
    exists|block: JsonTree|
        {
            &&& #[trigger] is_message(tree, "user"@, seq![block])
            &&& has_names(block, set!["type"@, "tool_use_id"@, "content"@])
            &&& says(block, "type"@, JsonTree::Text("tool_result"@))
            &&& says(block, "tool_use_id"@, JsonTree::Text(id))
            &&& says(block, "content"@, JsonTree::Array(blocks))
        }
}

proof fn lemma_single(item: ItemView)
    ensures
        conversation_messages(seq![item]) == item_messages(seq![item], 0),
{
    let one = seq![item];
    assert(messages_before(one, 0) =~= Seq::<JsonTree>::empty());
    assert(messages_before(one, 1) == messages_before(one, 0) + item_messages(one, 0));
    assert(conversation_messages(one) =~= item_messages(one, 0));
}

proof fn lemma_single_is_unpaired(item: ItemView, id: Seq<char>, i: int, o: int)
    ensures
        !paired(seq![item], id, i, o),
{
    let one = seq![item];
    lemma_first_call(one, id);
    lemma_first_output(one, id);
}

/// What one item of a conversation states: a message states its blocks under its role, where it has any;
/// a call states the tool, the id and the input, which is the JSON that the arguments are or else
/// their text; an output states its blocks under the id; and no other item states anything.
pub proof fn law_one_item(item: ItemView)
    ensures
        ({
            let said = conversation_messages(seq![item]);
            match item {
                ItemView::Message { role, content, .. } => if content_blocks(content).len() == 0 {
                    said.len() == 0
                } else {
                    said.len() == 1 && is_message(said[0], role, content_blocks(content))
                },
                ItemView::FunctionCall { name, arguments, call_id, .. } => said.len() == 1
                    && is_tool_use(
                    said[0],
                    call_id,
                    name,
                    match parsed_json(arguments) {
                        Ok(tree) => tree,
                        Err(_) => JsonTree::Text(arguments),
                    },
                ),
                ItemView::FunctionCallOutput { call_id, output } => said.len() == 1
                    && is_tool_result(said[0], call_id, tool_result_blocks(output)),
                _ => said.len() == 0,
            }
        }),
{
    lemma_names();
    lemma_single(item);
    let one = seq![item];
    match item {
        ItemView::FunctionCall { name, arguments, call_id, .. } => {
            lemma_single_is_unpaired(item, call_id, 0, first_output(one, call_id));
            let tree = tool_use_message(name, arguments, call_id);
            let block = tree->Object_0["content"@]->Array_0[0];
            assert(is_message(tree, "assistant"@, seq![block]));
        },
        ItemView::FunctionCallOutput { call_id, output } => {
            lemma_single_is_unpaired(item, call_id, first_call(one, call_id), 0);
            let tree = tool_result_message(call_id, output);
            let block = tree->Object_0["content"@]->Array_0[0];
            assert(is_message(tree, "user"@, seq![block]));
        },
        _ => {},
    }
}

/// What the items of a conversation state one by one, in their order.
pub open spec fn one_by_one(items: Seq<ItemView>) -> Seq<JsonTree>
    decreases items.len(),
{
    if items.len() == 0 {
        Seq::empty()
    } else {
        one_by_one(items.drop_last()) + conversation_messages(seq![items.last()])
    }
}

/// Whether an item calls a tool under this id.
pub open spec fn makes_call(item: ItemView, id: Seq<char>) -> bool {
    match item {
        ItemView::FunctionCall { call_id, .. } => call_id == id,
        _ => false,
    }
}

/// Whether an item gives an output of the call with this id.
pub open spec fn gives_output(item: ItemView, id: Seq<char>) -> bool {
    match item {
        ItemView::FunctionCallOutput { call_id, .. } => call_id == id,
        _ => false,
    }
}

/// Whether every output that a call is to be answered by stands right after the call: a call that is
/// the first of its id, and a later output that is the first of that id.
pub open spec fn answers_are_in_place(items: Seq<ItemView>) -> bool {
    forall|id: Seq<char>, i: int, o: int|
        0 <= i < o < items.len() && #[trigger] makes_call(items[i], id) && #[trigger] gives_output(
            items[o],
            id,
        ) && (forall|j: int| 0 <= j < i ==> !makes_call(#[trigger] items[j], id)) && (forall|j: int|
            0 <= j < o ==> !gives_output(#[trigger] items[j], id)) ==> o == i + 1
}

spec fn pairs_are_in_place(items: Seq<ItemView>) -> bool {
    forall|id: Seq<char>, i: int, o: int|
        0 <= i < o < items.len() && #[trigger] is_call(items[i], id) && #[trigger] is_output(
            items[o],
            id,
        ) && (forall|j: int| 0 <= j < i ==> !is_call(#[trigger] items[j], id)) && (forall|j: int|
            0 <= j < o ==> !is_output(#[trigger] items[j], id)) ==> o == i + 1
}

proof fn lemma_in_place(items: Seq<ItemView>, k: int)
    requires
        pairs_are_in_place(items),
        0 <= k <= items.len(),
    ensures
        ({
            let brought = k > 0 && k < items.len() && items[k - 1] is FunctionCall && paired(
                items,
                items[k - 1]->FunctionCall_call_id,
                k - 1,
                k,
            );
            messages_before(items, k) == (if brought {
                one_by_one(items.take(k + 1))
            } else {
                one_by_one(items.take(k))
            })
        }),
    decreases k,
{
    if k == 0 {
        assert(items.take(0) =~= Seq::<ItemView>::empty());
    } else {
        let i = k - 1;
        lemma_in_place(items, i);
        assert(items.take(k).drop_last() =~= items.take(i));
        assert(items.take(k).last() == items[i]);
        lemma_single(items[i]);
        match items[i] {
            ItemView::FunctionCall { name, arguments, call_id, .. } => {
                let o = first_output(items, call_id);
                lemma_first_call(items, call_id);
                lemma_first_output(items, call_id);
                lemma_single_is_unpaired(items[i], call_id, 0, first_output(seq![items[i]], call_id));
                if i > 0 && items[i - 1] is FunctionCall {
                    let before = items[i - 1]->FunctionCall_call_id;
                    lemma_first_output(items, before);
                    assert(!paired(items, before, i - 1, i));
                }
                assert(conversation_messages(seq![items[i]]) =~= seq![
                    tool_use_message(name, arguments, call_id),
                ]);
                if paired(items, call_id, i, o) {
                    assert(is_call(items[i], call_id));
                    assert(is_output(items[o], call_id));
                    assert(o == k);
                    assert(items.take(k + 1).drop_last() =~= items.take(k));
                    assert(items.take(k + 1).last() == items[k]);
                    lemma_single(items[k]);
                    lemma_single_is_unpaired(
                        items[k],
                        call_id,
                        first_call(seq![items[k]], call_id),
                        0,
                    );
                    let output = items[k]->FunctionCallOutput_output;
                    assert(conversation_messages(seq![items[k]]) =~= seq![
                        tool_result_message(call_id, output),
                    ]);
                    assert(item_messages(items, i) =~= seq![
                        tool_use_message(name, arguments, call_id),
                    ] + seq![tool_result_message(call_id, output)]);
                    assert(one_by_one(items.take(k + 1)) == one_by_one(items.take(k))
                        + conversation_messages(seq![items[k]]));
                    assert(messages_before(items, k) =~= one_by_one(items.take(k + 1)));
                } else {
                    assert(messages_before(items, k) =~= one_by_one(items.take(k)));
                }
            },
            ItemView::FunctionCallOutput { call_id, output } => {
                let c = first_call(items, call_id);
                lemma_first_call(items, call_id);
                lemma_first_output(items, call_id);
                lemma_single_is_unpaired(items[i], call_id, first_call(seq![items[i]], call_id), 0);
                if paired(items, call_id, c, i) {
                    assert(is_call(items[c], call_id));
                    assert(is_output(items[i], call_id));
                    assert(i == c + 1);
                    assert(messages_before(items, k) =~= messages_before(items, i));
                } else {
                    if i > 0 && items[i - 1] is FunctionCall {
                        let before = items[i - 1]->FunctionCall_call_id;
                        lemma_first_output(items, before);
                        lemma_first_call(items, before);
                        assert(!paired(items, before, i - 1, i));
                    }
                    assert(messages_before(items, k) =~= one_by_one(items.take(k)));
                }
            },
            _ => {
                if i > 0 && items[i - 1] is FunctionCall {
                    let before = items[i - 1]->FunctionCall_call_id;
                    lemma_first_output(items, before);
                    assert(!paired(items, before, i - 1, i));
                }
                assert(conversation_messages(seq![items[i]]) =~= item_messages(items, i));
                assert(messages_before(items, k) =~= one_by_one(items.take(k)));
            },
        }
    }
}

/// A conversation in which every answer stands right after its call is stated item by item, in order,
/// with nothing left out and nothing added.
pub proof fn law_items_are_stated_in_order(items: Seq<ItemView>)
    requires
        answers_are_in_place(items),
    ensures
        conversation_messages(items) == one_by_one(items),
{
    assert forall|id: Seq<char>, i: int, o: int|
        0 <= i < o < items.len() && #[trigger] is_call(items[i], id) && #[trigger] is_output(
            items[o],
            id,
        ) && (forall|j: int| 0 <= j < i ==> !is_call(#[trigger] items[j], id)) && (forall|j: int|
            0 <= j < o ==> !is_output(#[trigger] items[j], id)) implies o == i + 1 by {
        assert(makes_call(items[i], id));
        assert(gives_output(items[o], id));
    }
    lemma_in_place(items, items.len() as int);
    assert(items.take(items.len() as int) =~= items);
}

/// The place of item `k` once the item at `n + 1 + m` has been moved to `n + 1`.
spec fn moved(n: int, m: int, k: int) -> int {
    if n < k <= n + m {
        k + 1
    } else if k == n + 1 + m {
        n + 1
    } else {
        k
    }
}

proof fn lemma_first_call_is(items: Seq<ItemView>, id: Seq<char>, at: int)
    requires
        0 <= at <= items.len(),
        at < items.len() ==> is_call(items[at], id),
        forall|j: int| 0 <= j < at ==> !is_call(#[trigger] items[j], id),
    ensures
        first_call(items, id) == at,
{
    lemma_first_call(items, id);
}

proof fn lemma_first_output_is(items: Seq<ItemView>, id: Seq<char>, at: int)
    requires
        0 <= at <= items.len(),
        at < items.len() ==> is_output(items[at], id),
        forall|j: int| 0 <= j < at ==> !is_output(#[trigger] items[j], id),
    ensures
        first_output(items, id) == at,
{
    lemma_first_output(items, id);
}

spec fn is_move(x: Seq<ItemView>, y: Seq<ItemView>, n: int, m: int, id: Seq<char>) -> bool {
    &&& 0 <= n
    &&& 0 <= m
    &&& n + 1 + m < x.len()
    &&& x.len() == y.len()
    &&& is_call(x[n], id)
    &&& is_output(x[n + 1 + m], id)
    &&& forall|j: int| 0 <= j < n ==> !is_call(#[trigger] x[j], id)
    &&& forall|j: int| 0 <= j < n + 1 + m ==> !is_output(#[trigger] x[j], id)
    &&& forall|k: int| 0 <= k <= n ==> y[k] == #[trigger] x[k]
    &&& forall|k: int| n < k <= n + m ==> y[k + 1] == #[trigger] x[k]
    &&& forall|k: int| n < k <= n + m ==> #[trigger] y[k + 1] == x[k]
    &&& y[n + 1] == x[n + 1 + m]
    &&& forall|k: int| n + 1 + m < k < x.len() ==> y[k] == #[trigger] x[k]
}

/// Where an item of the conversation after the move was before it.
proof fn lemma_origin(x: Seq<ItemView>, y: Seq<ItemView>, n: int, m: int, id: Seq<char>, k: int) -> (j:
    int)
    requires
        is_move(x, y, n, m, id),
        0 <= k < y.len(),
    ensures
        0 <= j < x.len(),
        moved(n, m, j) == k,
        y[k] == x[j],
{
    if k <= n {
        assert(y[k] == x[k]);
        k
    } else if k == n + 1 {
        n + 1 + m
    } else if k <= n + 1 + m {
        assert(y[(k - 1) + 1] == x[k - 1]);
        k - 1
    } else {
        assert(y[k] == x[k]);
        k
    }
}

proof fn lemma_moved_firsts(
    x: Seq<ItemView>,
    y: Seq<ItemView>,
    n: int,
    m: int,
    id: Seq<char>,
    other: Seq<char>,
)
    requires
        is_move(x, y, n, m, id),
    ensures
        first_call(y, other) == moved(n, m, first_call(x, other)),
        first_output(y, other) == moved(n, m, first_output(x, other)),
{
    lemma_first_call(x, other);
    lemma_first_output(x, other);
    let c = first_call(x, other);
    let o = first_output(x, other);
    let out = n + 1 + m;
    if c < x.len() {
        assert(c != out);
        assert(y[moved(n, m, c)] == x[c]);
    }
    assert forall|k: int| 0 <= k < moved(n, m, c) implies !is_call(#[trigger] y[k], other) by {
        let j = lemma_origin(x, y, n, m, id, k);
        if j != out {
            assert(j < c);
        }
    }
    lemma_first_call_is(y, other, moved(n, m, c));
    if o < x.len() {
        assert(y[moved(n, m, o)] == x[o]);
    }
    assert forall|k: int| 0 <= k < moved(n, m, o) implies !is_output(#[trigger] y[k], other) by {
        let j = lemma_origin(x, y, n, m, id, k);
        if j == out {
            if other == id {
                lemma_first_output_is(x, id, out);
            }
        } else {
            assert(j < o);
        }
    }
    lemma_first_output_is(y, other, moved(n, m, o));
}

proof fn lemma_moved_item(x: Seq<ItemView>, y: Seq<ItemView>, n: int, m: int, id: Seq<char>, k: int)
    requires
        is_move(x, y, n, m, id),
        0 <= k < x.len(),
    ensures
        item_messages(y, moved(n, m, k)) == item_messages(x, k),
        k == n + 1 + m ==> item_messages(x, k).len() == 0,
{
    assert(y[moved(n, m, k)] == x[k]);
    let out = n + 1 + m;
    match x[k] {
        ItemView::FunctionCall { call_id, .. } => {
            lemma_moved_firsts(x, y, n, m, id, call_id);
            lemma_first_call(x, call_id);
            lemma_first_output(x, call_id);
            let o = first_output(x, call_id);
            if o < x.len() {
                assert(y[moved(n, m, o)] == x[o]);
                if o == out {
                    assert(call_id == id);
                    lemma_first_call_is(x, id, n);
                }
            }
        },
        ItemView::FunctionCallOutput { call_id, .. } => {
            lemma_moved_firsts(x, y, n, m, id, call_id);
            lemma_first_call(x, call_id);
            lemma_first_output(x, call_id);
            if call_id == id {
                lemma_first_call_is(x, id, n);
                lemma_first_output_is(x, id, out);
            }
        },
        _ => {},
    }
}

proof fn lemma_moved_messages(
    x: Seq<ItemView>,
    y: Seq<ItemView>,
    n: int,
    m: int,
    id: Seq<char>,
    k: int,
)
    requires
        is_move(x, y, n, m, id),
        0 <= k <= x.len(),
    ensures
        messages_before(x, k) == messages_before(
            y,
            if n < k <= n + 1 + m {
                k + 1
            } else {
                k
            },
        ),
    decreases k,
{
    if k > 0 {
        lemma_moved_messages(x, y, n, m, id, k - 1);
        lemma_moved_item(x, y, n, m, id, k - 1);
        if k == n + 1 {
            lemma_moved_item(x, y, n, m, id, n + 1 + m);
            assert(messages_before(y, n + 2) =~= messages_before(y, n + 1));
        } else if k == n + 2 + m {
            assert(messages_before(x, k) =~= messages_before(x, k - 1));
        }
    }
}

/// It makes no difference to a request how far after its call an answer stands: a conversation is stated
/// as if the first output of a call, where it comes later, stood right after the first call of that id.
pub proof fn law_answers_are_brought_forward(
    before: Seq<ItemView>,
    call: ItemView,
    between: Seq<ItemView>,
    output: ItemView,
    after: Seq<ItemView>,
    id: Seq<char>,
)
    requires
        makes_call(call, id),
        gives_output(output, id),
        forall|j: int| 0 <= j < before.len() ==> !makes_call(#[trigger] before[j], id),
        forall|j: int| 0 <= j < before.len() ==> !gives_output(#[trigger] before[j], id),
        forall|j: int| 0 <= j < between.len() ==> !gives_output(#[trigger] between[j], id),
    ensures
        conversation_messages(before + seq![call] + between + seq![output] + after)
            == conversation_messages(before + seq![call] + seq![output] + between + after),
{
    let x = before + seq![call] + between + seq![output] + after;
    let y = before + seq![call] + seq![output] + between + after;
    let n = before.len() as int;
    let m = between.len() as int;
    assert forall|j: int| 0 <= j < n implies {
        &&& !is_call(#[trigger] x[j], id)
        &&& !is_output(x[j], id)
    } by {
        assert(x[j] == before[j]);
    }
    assert forall|j: int| n < j <= n + m implies !is_output(#[trigger] x[j], id) by {
        assert(x[j] == between[j - n - 1]);
    }
    assert(x[n] == call);
    assert(x[n + 1 + m] == output);
    assert(is_move(x, y, n, m, id));
    lemma_moved_messages(x, y, n, m, id, x.len() as int);
}

/// Whether a tool is a patch tool with free-text input.
pub open spec fn is_freeform_patch(tool: ToolSpec) -> bool {
    tool matches ToolSpec::Freeform(t) && t.name@ == "apply_patch"@
}

/// Whether a tool is a patch tool with JSON input.
pub open spec fn is_function_patch(tool: ToolSpec) -> bool {
    tool matches ToolSpec::Function(t) && t.name@ == "apply_patch"@
}

/// Shell outputs are rewritten exactly where one of the tools is a patch tool with free-text input;
/// otherwise the conversation is stated as it is.
pub proof fn law_freeform_patch_tool_decides(prompt: Prompt, i: int)
    ensures
        0 <= i < prompt.tools@.len() && is_freeform_patch(prompt.tools@[i])
            ==> prompt.formatted_input() == reserialized(
            item_views(prompt.input@),
            prompt.shell_outputs@,
        ),
        (forall|j: int|
            0 <= j < prompt.tools@.len() ==> !is_freeform_patch(#[trigger] prompt.tools@[j]))
            ==> prompt.formatted_input() == item_views(prompt.input@),
        item_views(prompt.input@).len() == prompt.input@.len(),
        0 <= i < prompt.input@.len() ==> item_views(prompt.input@)[i] == prompt.input@[i]@,
{
}

/// An override is used alone. Without one, the model's own instructions are used: with those of the
/// patch tool on the next line exactly where the model needs them and no tool is a patch tool of either
/// kind.
pub proof fn law_instructions(prompt: Prompt, model: ModelFamily, patch: Seq<char>, i: int)
    ensures
        ({
            let full = prompt.full_instructions(model, patch);
            let base = model.base_instructions@;
            let offered = 0 <= i < prompt.tools@.len() && (is_freeform_patch(prompt.tools@[i])
                || is_function_patch(prompt.tools@[i]));
            let absent = forall|j: int|
                0 <= j < prompt.tools@.len() ==> !is_freeform_patch(#[trigger] prompt.tools@[j])
                    && !is_function_patch(prompt.tools@[j]);
            &&& prompt.base_instructions_override matches Some(text) ==> full == text@
            &&& prompt.base_instructions_override is None ==> {
                &&& offered || !model.needs_special_apply_patch_instructions ==> full == base
                &&& absent && model.needs_special_apply_patch_instructions ==> full == base + "\n"@
                    + patch
            }
        }),
{
}

/// A conversation is read whole: of every item all that a request can state.
pub proof fn law_items_are_read_whole(item: ResponseItem)
    ensures
        match item {
            ResponseItem::Message { role, content, .. } => {
                &&& item@ is Message
                &&& item@->role == role@
                &&& item@->content.len() == content@.len()
                &&& forall|i: int|
                    0 <= i < content@.len() ==> match content@[i] {
                        ContentItem::InputText { text } => #[trigger] item@->content[i]
                            == ContentItemView::InputText { text: text@ },
                        ContentItem::OutputText { text } => item@->content[i]
                            == ContentItemView::OutputText { text: text@ },
                        ContentItem::InputImage { image_url } => item@->content[i]
                            == ContentItemView::InputImage { image_url: image_url@ },
                    }
            },
            ResponseItem::FunctionCall { name, arguments, call_id, .. } => {
                &&& item@ is FunctionCall
                &&& item@->FunctionCall_name == name@
                &&& item@->arguments == arguments@
                &&& item@->FunctionCall_call_id == call_id@
            },
            ResponseItem::FunctionCallOutput { call_id, output } => {
                let read = item@->FunctionCallOutput_output;
                &&& item@ is FunctionCallOutput
                &&& item@->FunctionCallOutput_call_id == call_id@
                &&& read.content == output.content@
                &&& read.content_items is Some == output.content_items is Some
                &&& output.content_items matches Some(pieces) ==> {
                    &&& read.content_items->0.len() == pieces@.len()
                    &&& forall|i: int|
                        0 <= i < pieces@.len() ==> match pieces@[i] {
                            FunctionCallOutputContentItem::InputText {
                                text,
                            } => #[trigger] read.content_items->0[i]
                                == OutputContentView::InputText { text: text@ },
                            FunctionCallOutputContentItem::InputImage {
                                image_url,
                            } => read.content_items->0[i] == OutputContentView::InputImage {
                                image_url: image_url@,
                            },
                        }
                }
            },
            ResponseItem::CustomToolCall { call_id, name, .. } => {
                &&& item@ is CustomToolCall
                &&& item@->CustomToolCall_name == name@
                &&& item@->CustomToolCall_call_id == call_id@
            },
            ResponseItem::CustomToolCallOutput { call_id, output } => {
                &&& item@ is CustomToolCallOutput
                &&& item@->CustomToolCallOutput_output == output@
                &&& item@->CustomToolCallOutput_call_id == call_id@
            },
            ResponseItem::LocalShellCall { .. } => item@ is LocalShellCall,
            ResponseItem::Reasoning { .. } => item@ is Reasoning,
            ResponseItem::WebSearchCall { .. } => item@ is WebSearchCall,
            ResponseItem::GhostSnapshot { .. } => item@ is GhostSnapshot,
            ResponseItem::Compaction { .. } => item@ is Compaction,
            ResponseItem::Other => item@ is Other,
        },
{
}

/// The name by which a tool is called: its own, or the fixed name of a built-in tool.
pub proof fn law_tool_names(tool: ToolSpec)
    ensures
        match tool {
            ToolSpec::Function(function) => tool.spec_name() == function.name@,
            ToolSpec::Freeform(freeform) => tool.spec_name() == freeform.name@,
            ToolSpec::LocalShell {} => tool.spec_name() == "local_shell"@,
            ToolSpec::WebSearch {} => tool.spec_name() == "web_search"@,
        },
{
}

} // verus!
