//! Requests to the Messages endpoint: how a prompt becomes a request body.

use crate::json::{
    json_tree, json_trees, no_members, object_insert, object_members, object_new, parsed_json,
    read_outcome, value_from_str, value_of_array, value_of_bool, value_of_integer, value_of_object,
    value_of_text, JsonTree,
};
use crate::models::{
    content_views, item_views, output_content_views, ApiError, ContentItem, ContentItemView,
    FunctionCallOutputContentItem, FunctionCallOutputPayload, ItemView, ModelFamily,
    OutputContentView, OutputView, ResponseItem,
};
use crate::prompt::Prompt;
use crate::text::{
    after_prefix, before_suffix, blank, is_blank, split_at_first, split_once, starts_with,
    strip_prefix, strip_suffix,
};
use serde_json::Value;
use std::collections::HashSet;
use vstd::hash_map::StringHashMap;
use vstd::prelude::*;

verus! {

broadcast use vstd::std_specs::hash::group_hash_axioms;

/// The number of tokens at which a conversation is compacted, or else the context window.
pub open spec fn effective_limit(model_family: ModelFamily) -> int {
    match model_family.auto_compact_token_limit {
        Some(limit) => limit as int,
        None => match model_family.context_window {
            Some(window) => window as int,
            None => 200_000,
        },
    }
}

/// The number of tokens that an answer may take: a quarter of the limit, at least one and at
/// most 64,000.
pub open spec fn max_tokens(model_family: ModelFamily) -> int {
    let fraction = effective_limit(model_family) * 25 / 100;
    if fraction < 1 {
        1
    } else if fraction > 64_000 {
        64_000
    } else {
        fraction
    }
}

/// The number of tokens that an answer may take.
pub fn compute_max_tokens(model_family: &ModelFamily) -> (r: i64)
    ensures
        r == max_tokens(*model_family),
        1 <= r <= 64_000,
{
    let context_window: i64 = match model_family.context_window {
        Some(window) => window,
        None => 200_000,
    };
    let effective_limit: i64 = match model_family.auto_compact_token_limit {
        Some(limit) => limit,
        None => context_window,
    };
    if effective_limit < 4 {
        1
    } else if effective_limit >= 256_000 {
        64_000
    } else {
        effective_limit * 25 / 100
    }
}

/// The media type and the data of a base64 data URL.
pub open spec fn data_url_parts(url: Seq<char>) -> Option<(Seq<char>, Seq<char>)> {
    match after_prefix(url, "data:"@) {
        Some(rest) => match split_at_first(rest, ',') {
            Some((meta, data)) => match before_suffix(meta, ";base64"@) {
                Some(media_type) => Some((media_type, data)),
                None => None,
            },
            None => None,
        },
        None => None,
    }
}

/// Parses a data URL into its media type and its base64 data. The expected format is
/// `data:image/png;base64,<data>`.
pub fn parse_data_url(url: &str) -> (r: Option<(String, String)>)
    ensures
        match r {
            Some((media_type, data)) => data_url_parts(url@) == Some((media_type@, data@)),
            None => data_url_parts(url@) is None,
        },
{
    match strip_prefix(url, "data:") {
        Some(rest) => match split_once(rest, ',') {
            Some((meta, data)) => match strip_suffix(meta, ";base64") {
                Some(media_type) => Some((media_type.to_string(), data.to_string())),
                None => None,
            },
            None => None,
        },
        None => None,
    }
}

/// A block of text.
pub open spec fn text_block(text: Seq<char>) -> JsonTree {
    JsonTree::Object(
        no_members().insert("type"@, JsonTree::Text("text"@)).insert("text"@, JsonTree::Text(text)),
    )
}

/// A block with an image that is sent along.
pub open spec fn base64_image_block(media_type: Seq<char>, data: Seq<char>) -> JsonTree {
    let source = no_members().insert("type"@, JsonTree::Text("base64"@)).insert(
        "media_type"@,
        JsonTree::Text(media_type),
    ).insert("data"@, JsonTree::Text(data));
    JsonTree::Object(
        no_members().insert("type"@, JsonTree::Text("image"@)).insert(
            "source"@,
            JsonTree::Object(source),
        ),
    )
}

/// A block with an image that is fetched from a URL.
pub open spec fn url_image_block(url: Seq<char>) -> JsonTree {
    let source = no_members().insert("type"@, JsonTree::Text("url"@)).insert(
        "url"@,
        JsonTree::Text(url),
    );
    JsonTree::Object(
        no_members().insert("type"@, JsonTree::Text("image"@)).insert(
            "source"@,
            JsonTree::Object(source),
        ),
    )
}

/// A block with an image in a tool's result.
pub open spec fn result_image_block(url: Seq<char>) -> JsonTree {
    JsonTree::Object(
        no_members().insert("type"@, JsonTree::Text("image_url"@)).insert(
            "image_url"@,
            JsonTree::Object(no_members().insert("url"@, JsonTree::Text(url))),
        ),
    )
}

/// A block that calls a tool.
pub open spec fn tool_use_block(id: Seq<char>, name: Seq<char>, input: JsonTree) -> JsonTree {
    JsonTree::Object(
        no_members().insert("type"@, JsonTree::Text("tool_use"@)).insert(
            "id"@,
            JsonTree::Text(id),
        ).insert("name"@, JsonTree::Text(name)).insert("input"@, input),
    )
}

/// A block that answers a tool call.
pub open spec fn tool_result_block(tool_use_id: Seq<char>, content: JsonTree) -> JsonTree {
    JsonTree::Object(
        no_members().insert("type"@, JsonTree::Text("tool_result"@)).insert(
            "tool_use_id"@,
            JsonTree::Text(tool_use_id),
        ).insert("content"@, content),
    )
}

/// A message: who speaks, and the blocks of what is said.
pub open spec fn message(role: Seq<char>, blocks: Seq<JsonTree>) -> JsonTree {
    JsonTree::Object(
        no_members().insert("role"@, JsonTree::Text(role)).insert(
            "content"@,
            JsonTree::Array(blocks),
        ),
    )
}

fn text_block_value(text: &str) -> (r: Value)
    ensures
        json_tree(r) == text_block(text@),
{
    let mut block = object_new();
    object_insert(&mut block, "type", value_of_text("text"));
    object_insert(&mut block, "text", value_of_text(text));
    value_of_object(block)
}

fn image_block_value(source: Value) -> (r: Value)
    ensures
        json_tree(r) == JsonTree::Object(
            no_members().insert("type"@, JsonTree::Text("image"@)).insert(
                "source"@,
                json_tree(source),
            ),
        ),
{
    let mut block = object_new();
    object_insert(&mut block, "type", value_of_text("image"));
    object_insert(&mut block, "source", source);
    value_of_object(block)
}

fn base64_image_block_value(media_type: &str, data: &str) -> (r: Value)
    ensures
        json_tree(r) == base64_image_block(media_type@, data@),
{
    let mut source = object_new();
    object_insert(&mut source, "type", value_of_text("base64"));
    object_insert(&mut source, "media_type", value_of_text(media_type));
    object_insert(&mut source, "data", value_of_text(data));
    image_block_value(value_of_object(source))
}

fn url_image_block_value(url: &str) -> (r: Value)
    ensures
        json_tree(r) == url_image_block(url@),
{
    let mut source = object_new();
    object_insert(&mut source, "type", value_of_text("url"));
    object_insert(&mut source, "url", value_of_text(url));
    image_block_value(value_of_object(source))
}

fn result_image_block_value(url: &str) -> (r: Value)
    ensures
        json_tree(r) == result_image_block(url@),
{
    let mut target = object_new();
    object_insert(&mut target, "url", value_of_text(url));
    let mut block = object_new();
    object_insert(&mut block, "type", value_of_text("image_url"));
    object_insert(&mut block, "image_url", value_of_object(target));
    value_of_object(block)
}

fn message_value(role: &str, blocks: Vec<Value>) -> (r: Value)
    ensures
        json_tree(r) == message(role@, json_trees(blocks@)),
{
    let mut m = object_new();
    object_insert(&mut m, "role", value_of_text(role));
    object_insert(&mut m, "content", value_of_array(blocks));
    value_of_object(m)
}

fn one_block_message_value(role: &str, block: Value) -> (r: Value)
    ensures
        json_tree(r) == message(role@, seq![json_tree(block)]),
{
    let mut blocks: Vec<Value> = Vec::new();
    blocks.push(block);
    assert(json_trees(blocks@) =~= seq![json_tree(block)]);
    message_value(role, blocks)
}

/// The block of one piece of a message. Blank text has none, and neither has a data URL that is
/// not base64.
pub open spec fn content_block(item: ContentItemView) -> Option<JsonTree> {
    match item {
        ContentItemView::InputText { text } => nonblank_text_block(text),
        ContentItemView::OutputText { text } => nonblank_text_block(text),
        ContentItemView::InputImage { image_url } => if "data:"@.is_prefix_of(image_url) {
            match data_url_parts(image_url) {
                Some((media_type, data)) => Some(base64_image_block(media_type, data)),
                None => None,
            }
        } else {
            Some(url_image_block(image_url))
        },
    }
}

/// A block of text, unless the text is blank.
pub open spec fn nonblank_text_block(text: Seq<char>) -> Option<JsonTree> {
    if blank(text) {
        None
    } else {
        Some(text_block(text))
    }
}

/// A list with one more element, where there is one.
pub open spec fn push_some(trees: Seq<JsonTree>, tree: Option<JsonTree>) -> Seq<JsonTree> {
    match tree {
        Some(t) => trees.push(t),
        None => trees,
    }
}

/// The blocks of a message, in order.
pub open spec fn content_blocks(content: Seq<ContentItemView>) -> Seq<JsonTree>
    decreases content.len(),
{
    if content.len() == 0 {
        Seq::empty()
    } else {
        push_some(content_blocks(content.drop_last()), content_block(content.last()))
    }
}

fn content_block_value(item: &ContentItem) -> (r: Option<Value>)
    ensures
        match r {
            Some(block) => content_block(item@) == Some(json_tree(block)),
            None => content_block(item@) is None,
        },
{
    match item {
        ContentItem::InputText { text } | ContentItem::OutputText { text } => {
            if is_blank(text.as_str()) {
                None
            } else {
                Some(text_block_value(text.as_str()))
            }
        },
        ContentItem::InputImage { image_url } => {
            if starts_with(image_url.as_str(), "data:") {
                match parse_data_url(image_url.as_str()) {
                    Some((media_type, data)) => Some(
                        base64_image_block_value(media_type.as_str(), data.as_str()),
                    ),
                    None => None,
                }
            } else {
                Some(url_image_block_value(image_url.as_str()))
            }
        },
    }
}

fn content_block_values(content: &Vec<ContentItem>) -> (r: Vec<Value>)
    ensures
        json_trees(r@) == content_blocks(content_views(content@)),
{
    let ghost views = content_views(content@);
    let mut blocks: Vec<Value> = Vec::new();
    let mut i: usize = 0;
    assert(json_trees(blocks@) =~= content_blocks(views.take(0)));
    while i < content.len()
        invariant
            i <= content.len(),
            views == content_views(content@),
            json_trees(blocks@) == content_blocks(views.take(i as int)),
        decreases content.len() - i,
    {
        let ghost before = blocks@;
        assert(views.take(i + 1).drop_last() == views.take(i as int));
        assert(views.take(i + 1).last() == content@[i as int]@);
        match content_block_value(&content[i]) {
            Some(block) => {
                blocks.push(block);
                assert(json_trees(blocks@) =~= json_trees(before).push(json_tree(block)));
            },
            None => {},
        }
        i = i + 1;
    }
    assert(views.take(i as int) == views);
    blocks
}

/// The block of one piece of a tool's output. Blank text has none.
pub open spec fn output_block(item: OutputContentView) -> Option<JsonTree> {
    match item {
        OutputContentView::InputText { text } => nonblank_text_block(text),
        OutputContentView::InputImage { image_url } => Some(result_image_block(image_url)),
    }
}

/// The blocks of a tool's output, in order.
pub open spec fn output_blocks(items: Seq<OutputContentView>) -> Seq<JsonTree>
    decreases items.len(),
{
    if items.len() == 0 {
        Seq::empty()
    } else {
        push_some(output_blocks(items.drop_last()), output_block(items.last()))
    }
}

/// The blocks that a tool's result is made of: those of its pieces, and where there are none, its
/// text, unless it is blank.
pub open spec fn tool_result_blocks(output: OutputView) -> Seq<JsonTree> {
    let blocks = match output.content_items {
        Some(items) => output_blocks(items),
        None => Seq::empty(),
    };
    if blocks.len() == 0 {
        push_some(Seq::empty(), nonblank_text_block(output.content))
    } else {
        blocks
    }
}

/// The content of a tool's result.
pub fn function_output_to_tool_result_content(output: &FunctionCallOutputPayload) -> (r: Value)
    ensures
        json_tree(r) == JsonTree::Array(tool_result_blocks(output@)),
{
    let mut blocks: Vec<Value> = Vec::new();
    assert(json_trees(blocks@) =~= Seq::empty());
    match &output.content_items {
        Some(items) => {
            let ghost views = output_content_views(items@);
            let mut i: usize = 0;
            assert(json_trees(blocks@) =~= output_blocks(views.take(0)));
            while i < items.len()
                invariant
                    i <= items.len(),
                    views == output_content_views(items@),
                    json_trees(blocks@) == output_blocks(views.take(i as int)),
                decreases items.len() - i,
            {
                let ghost before = blocks@;
                assert(views.take(i + 1).drop_last() == views.take(i as int));
                assert(views.take(i + 1).last() == items@[i as int]@);
                match &items[i] {
                    FunctionCallOutputContentItem::InputText { text } => {
                        if !is_blank(text.as_str()) {
                            let block = text_block_value(text.as_str());
                            blocks.push(block);
                            assert(json_trees(blocks@) =~= json_trees(before).push(
                                json_tree(block),
                            ));
                        }
                    },
                    FunctionCallOutputContentItem::InputImage { image_url } => {
                        let block = result_image_block_value(image_url.as_str());
                        blocks.push(block);
                        assert(json_trees(blocks@) =~= json_trees(before).push(json_tree(block)));
                    },
                }
                i = i + 1;
            }
            assert(views.take(i as int) == views);
        },
        None => {},
    }
    assert(json_trees(blocks@).len() == blocks@.len());
    if blocks.len() == 0 && !is_blank(output.content.as_str()) {
        let block = text_block_value(output.content.as_str());
        blocks.push(block);
        assert(json_trees(blocks@) =~= seq![json_tree(block)]);
        assert(tool_result_blocks(output@) =~= seq![json_tree(block)]);
    } else {
        assert(tool_result_blocks(output@) =~= json_trees(blocks@));
    }
    value_of_array(blocks)
}

/// The input of a tool call, given how its arguments read: their value, or where they are no JSON,
/// their text.
pub open spec fn call_input_given(
    arguments: Seq<char>,
    read: Result<JsonTree, Seq<char>>,
) -> JsonTree {
    match read {
        Ok(tree) => tree,
        Err(_) => JsonTree::Text(arguments),
    }
}

/// The message that calls a tool, given how the call's arguments read.
pub open spec fn tool_use_message_given(
    name: Seq<char>,
    arguments: Seq<char>,
    call_id: Seq<char>,
    read: Result<JsonTree, Seq<char>>,
) -> JsonTree {
    message(
        "assistant"@,
        seq![tool_use_block(call_id, name, call_input_given(arguments, read))],
    )
}

/// The message that calls a tool.
pub open spec fn tool_use_message(
    name: Seq<char>,
    arguments: Seq<char>,
    call_id: Seq<char>,
) -> JsonTree {
    tool_use_message_given(name, arguments, call_id, parsed_json(arguments))
}

/// The message that answers a tool call.
pub open spec fn tool_result_message(call_id: Seq<char>, output: OutputView) -> JsonTree {
    message(
        "user"@,
        seq![tool_result_block(call_id, JsonTree::Array(tool_result_blocks(output)))],
    )
}

/// Makes the message that calls a tool, given how the call's arguments read.
pub fn tool_use_to_message(
    name: &str,
    arguments: &str,
    call_id: &str,
    read: Result<Value, String>,
) -> (r: Value)
    ensures
        json_tree(r) == tool_use_message_given(name@, arguments@, call_id@, read_outcome(read)),
{
    let input = match read {
        Ok(value) => value,
        Err(_) => value_of_text(arguments),
    };
    let mut block = object_new();
    object_insert(&mut block, "type", value_of_text("tool_use"));
    object_insert(&mut block, "id", value_of_text(call_id));
    object_insert(&mut block, "name", value_of_text(name));
    object_insert(&mut block, "input", input);
    one_block_message_value("assistant", value_of_object(block))
}

/// Makes the message that answers a tool call.
pub fn tool_result_to_message(call_id: &str, output: &FunctionCallOutputPayload) -> (r: Value)
    ensures
        json_tree(r) == tool_result_message(call_id@, output@),
{
    let mut block = object_new();
    object_insert(&mut block, "type", value_of_text("tool_result"));
    object_insert(&mut block, "tool_use_id", value_of_text(call_id));
    object_insert(&mut block, "content", function_output_to_tool_result_content(output));
    one_block_message_value("user", value_of_object(block))
}

/// Whether an item is the call `id` of a tool.
pub open spec fn is_call(item: ItemView, id: Seq<char>) -> bool {
    item matches ItemView::FunctionCall { call_id, .. } && call_id == id
}

/// Whether an item is an output of the call `id`.
pub open spec fn is_output(item: ItemView, id: Seq<char>) -> bool {
    item matches ItemView::FunctionCallOutput { call_id, .. } && call_id == id
}

/// How many items stand before the first call `id`; all of them where there is none.
pub open spec fn first_call(items: Seq<ItemView>, id: Seq<char>) -> int
    decreases items.len(),
{
    if items.len() == 0 || is_call(items.first(), id) {
        0
    } else {
        1 + first_call(items.drop_first(), id)
    }
}

/// How many items stand before the first output of the call `id`; all of them where there is
/// none.
pub open spec fn first_output(items: Seq<ItemView>, id: Seq<char>) -> int
    decreases items.len(),
{
    if items.len() == 0 || is_output(items.first(), id) {
        0
    } else {
        1 + first_output(items.drop_first(), id)
    }
}

/// Whether call `id` at index `i` and the output at index `o` belong together: the first call of
/// that id and its first output, which comes later.
pub open spec fn paired(items: Seq<ItemView>, id: Seq<char>, i: int, o: int) -> bool {
    &&& first_call(items, id) == i
    &&& first_output(items, id) == o
    &&& i < o < items.len()
}

/// The messages that item `i` of a conversation gives rise to. A call is followed at once by the
/// output it is paired with, wherever that output stands; an output that is paired with a call
/// gives none at its own place.
pub open spec fn item_messages(items: Seq<ItemView>, i: int) -> Seq<JsonTree> {
    match items[i] {
        ItemView::Message { role, content, .. } => {
            let blocks = content_blocks(content);
            if blocks.len() == 0 {
                Seq::empty()
            } else {
                seq![message(role, blocks)]
            }
        },
        ItemView::FunctionCall { name, arguments, call_id, .. } => {
            let o = first_output(items, call_id);
            if paired(items, call_id, i, o) {
                seq![
                    tool_use_message(name, arguments, call_id),
                    tool_result_message(call_id, items[o]->FunctionCallOutput_output),
                ]
            } else {
                seq![tool_use_message(name, arguments, call_id)]
            }
        },
        ItemView::FunctionCallOutput { call_id, output } => if paired(
            items,
            call_id,
            first_call(items, call_id),
            i,
        ) {
            Seq::empty()
        } else {
            seq![tool_result_message(call_id, output)]
        },
        _ => Seq::empty(),
    }
}

/// The messages of the first `k` items of a conversation.
pub open spec fn messages_before(items: Seq<ItemView>, k: int) -> Seq<JsonTree>
    decreases k,
{
    if k <= 0 {
        Seq::empty()
    } else {
        messages_before(items, k - 1) + item_messages(items, k - 1)
    }
}

/// The messages of a conversation.
pub open spec fn conversation_messages(items: Seq<ItemView>) -> Seq<JsonTree> {
    messages_before(items, items.len() as int)
}

/// What [`first_call`] points at.
pub proof fn lemma_first_call(items: Seq<ItemView>, id: Seq<char>)
    ensures
        0 <= first_call(items, id) <= items.len(),
        first_call(items, id) < items.len() ==> is_call(items[first_call(items, id)], id),
        forall|i: int| 0 <= i < first_call(items, id) ==> !is_call(#[trigger] items[i], id),
    decreases items.len(),
{
    if items.len() > 0 && !is_call(items.first(), id) {
        let rest = items.drop_first();
        lemma_first_call(rest, id);
        assert forall|i: int| 0 <= i < first_call(items, id) implies !is_call(
            #[trigger] items[i],
            id,
        ) by {
            if i > 0 {
                assert(rest[i - 1] == items[i]);
            }
        }
    }
}

/// What [`first_output`] points at.
pub proof fn lemma_first_output(items: Seq<ItemView>, id: Seq<char>)
    ensures
        0 <= first_output(items, id) <= items.len(),
        first_output(items, id) < items.len() ==> is_output(items[first_output(items, id)], id),
        forall|i: int| 0 <= i < first_output(items, id) ==> !is_output(#[trigger] items[i], id),
    decreases items.len(),
{
    if items.len() > 0 && !is_output(items.first(), id) {
        let rest = items.drop_first();
        lemma_first_output(rest, id);
        assert forall|i: int| 0 <= i < first_output(items, id) implies !is_output(
            #[trigger] items[i],
            id,
        ) by {
            if i > 0 {
                assert(rest[i - 1] == items[i]);
            }
        }
    }
}

/// Whether the output at index `o` is paired with a call before index `k`.
pub open spec fn consumed_before(items: Seq<ItemView>, k: int, o: int) -> bool {
    &&& 0 <= o < items.len()
    &&& items[o] matches ItemView::FunctionCallOutput { call_id, .. } && paired(
        items,
        call_id,
        first_call(items, call_id),
        o,
    ) && first_call(items, call_id) < k
}

/// Finds the first output of each call.
fn index_outputs(input: &Vec<ResponseItem>) -> (r: StringHashMap<usize>)
    ensures
        forall|id: Seq<char>|
            #[trigger] r@.contains_key(id) == (first_output(item_views(input@), id) < input@.len()),
        forall|id: Seq<char>| #[trigger]
            r@.contains_key(id) ==> r@[id] == first_output(item_views(input@), id),
{
    let ghost items = item_views(input@);
    let mut index = StringHashMap::<usize>::new();
    let mut i: usize = 0;
    proof {
        assert forall|id: Seq<char>| first_output(items, id) >= 0 by {
            lemma_first_output(items, id);
        }
    }
    while i < input.len()
        invariant
            i <= input.len(),
            items == item_views(input@),
            forall|id: Seq<char>| #[trigger] first_output(items, id) >= 0,
            forall|id: Seq<char>|
                #[trigger] index@.contains_key(id) == (first_output(items, id) < i),
            forall|id: Seq<char>| #[trigger]
                index@.contains_key(id) ==> index@[id] == first_output(items, id),
        decreases input.len() - i,
    {
        assert(items[i as int] == input@[i as int]@);
        match &input[i] {
            ResponseItem::FunctionCallOutput { call_id, .. } => {
                proof {
                    assert forall|id: Seq<char>| id != call_id@ implies #[trigger] first_output(
                        items,
                        id,
                    ) != i by {
                        lemma_first_output(items, id);
                    }
                    lemma_first_output(items, call_id@);
                }
                if !index.contains_key(call_id.as_str()) {
                    index.insert(call_id.clone(), i);
                }
            },
            _ => {
                assert forall|id: Seq<char>| #[trigger] first_output(items, id) != i by {
                    lemma_first_output(items, id);
                }
            },
        }
        i = i + 1;
    }
    index
}

/// Makes the messages of a conversation.
pub fn items_to_anthropic_messages(input: &Vec<ResponseItem>) -> (r: Vec<Value>)
    ensures
        json_trees(r@) == conversation_messages(item_views(input@)),
{
    let ghost items = item_views(input@);
    let first_output_index_by_call_id = index_outputs(input);
    let mut consumed_output_indices: HashSet<usize> = HashSet::new();
    let mut messages: Vec<Value> = Vec::new();
    let mut index: usize = 0;
    proof {
        assert(json_trees(messages@) =~= Seq::empty());
        assert forall|o: usize| !consumed_before(items, 0, o as int) by {
            if consumed_before(items, 0, o as int) {
                lemma_first_call(items, items[o as int]->FunctionCallOutput_call_id);
            }
        }
    }
    while index < input.len()
        invariant
            index <= input.len(),
            items == item_views(input@),
            forall|id: Seq<char>|
                #[trigger] first_output_index_by_call_id@.contains_key(id) == (first_output(
                    items,
                    id,
                ) < input@.len()),
            forall|id: Seq<char>| #[trigger]
                first_output_index_by_call_id@.contains_key(id)
                    ==> first_output_index_by_call_id@[id] == first_output(items, id),
            forall|o: usize|
                #[trigger] consumed_output_indices@.contains(o) == consumed_before(
                    items,
                    index as int,
                    o as int,
                ),
            json_trees(messages@) == messages_before(items, index as int),
        decreases input.len() - index,
    {
        let ghost before = messages@;
        assert(items[index as int] == input@[index as int]@);
        match &input[index] {
            ResponseItem::Message { role, content, .. } => {
                let blocks = content_block_values(content);
                assert(json_trees(blocks@).len() == blocks@.len());
                if blocks.len() > 0 {
                    messages.push(message_value(role.as_str(), blocks));
                }
            },
            ResponseItem::FunctionCall { name, arguments, call_id, .. } => {
                let read = value_from_str(arguments.as_str());
                messages.push(
                    tool_use_to_message(name.as_str(), arguments.as_str(), call_id.as_str(), read),
                );
                proof {
                    lemma_first_call(items, call_id@);
                    lemma_first_output(items, call_id@);
                }
                match first_output_index_by_call_id.get(call_id.as_str()) {
                    Some(found) => {
                        let output_index: usize = *found;
                        if output_index > index && !consumed_output_indices.contains(
                            &output_index,
                        ) {
                            match &input[output_index] {
                                ResponseItem::FunctionCallOutput { output, .. } => {
                                    messages.push(
                                        tool_result_to_message(call_id.as_str(), output),
                                    );
                                    consumed_output_indices.insert(output_index);
                                },
                                _ => {},
                            }
                        }
                    },
                    None => {},
                }
            },
            ResponseItem::FunctionCallOutput { call_id, output } => {
                if !consumed_output_indices.contains(&index) {
                    messages.push(tool_result_to_message(call_id.as_str(), output));
                }
            },
            _ => {},
        }
        proof {
            assert(json_trees(messages@) =~= json_trees(before) + item_messages(
                items,
                index as int,
            ));
            assert forall|o: usize|
                #[trigger] consumed_output_indices@.contains(o) == consumed_before(
                    items,
                    index + 1,
                    o as int,
                ) by {
                if 0 <= o < items.len() && items[o as int] is FunctionCallOutput {
                    let id = items[o as int]->FunctionCallOutput_call_id;
                    lemma_first_call(items, id);
                    lemma_first_output(items, id);
                }
            }
        }
        index = index + 1;
    }
    messages
}

/// Makes the messages of a prompt's conversation, as the request states it.
pub fn response_items_to_anthropic_messages(prompt: &Prompt) -> (r: Vec<Value>)
    ensures
        json_trees(r@) == conversation_messages(prompt.formatted_input()),
{
    let input = prompt.get_formatted_input();
    items_to_anthropic_messages(&input)
}

/// The members of a request body. Tools are listed where there are any, and the choice among them
/// is left to the model where it may call several at once.
pub open spec fn body_members(
    items: Seq<ItemView>,
    model_family: ModelFamily,
    instructions: Seq<char>,
    tools: Seq<JsonTree>,
) -> Map<Seq<char>, JsonTree> {
    let basic = no_members().insert("model"@, JsonTree::Text(model_family.slug@)).insert(
        "system"@,
        JsonTree::Text(instructions),
    ).insert("messages"@, JsonTree::Array(conversation_messages(items))).insert(
        "max_tokens"@,
        JsonTree::Integer(max_tokens(model_family)),
    ).insert("stream"@, JsonTree::Bool(true));
    if tools.len() == 0 {
        basic
    } else {
        let with_tools = basic.insert("tools"@, JsonTree::Array(tools));
        if model_family.supports_parallel_tool_calls {
            with_tools.insert(
                "tool_choice"@,
                JsonTree::Object(no_members().insert("type"@, JsonTree::Text("auto"@))),
            )
        } else {
            with_tools
        }
    }
}

/// Makes the body of a request. There is no prompt for which it fails.
pub fn build_anthropic_messages_body(
    prompt: &Prompt,
    model_family: &ModelFamily,
    instructions: String,
    tools_json: Vec<Value>,
) -> (r: Result<Value, ApiError>)
    ensures
        r matches Ok(body) && json_tree(body) == JsonTree::Object(
            body_members(
                prompt.formatted_input(),
                *model_family,
                instructions@,
                json_trees(tools_json@),
            ),
        ),
{
    let messages = response_items_to_anthropic_messages(prompt);
    let max_tokens: i64 = compute_max_tokens(model_family);
    let has_tools: bool = tools_json.len() > 0;
    assert(json_trees(tools_json@).len() == tools_json@.len());
    let mut body = object_new();
    object_insert(&mut body, "model", value_of_text(model_family.slug.as_str()));
    object_insert(&mut body, "system", value_of_text(instructions.as_str()));
    object_insert(&mut body, "messages", value_of_array(messages));
    object_insert(&mut body, "max_tokens", value_of_integer(max_tokens));
    object_insert(&mut body, "stream", value_of_bool(true));
    if has_tools {
        object_insert(&mut body, "tools", value_of_array(tools_json));
        if model_family.supports_parallel_tool_calls {
            let mut choice = object_new();
            object_insert(&mut choice, "type", value_of_text("auto"));
            object_insert(&mut body, "tool_choice", value_of_object(choice));
        }
    }
    Ok(value_of_object(body))
}

} // verus!
