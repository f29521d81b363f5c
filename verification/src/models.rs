//! The conversation's data: the items of a model turn, the events of a response stream and
//! their errors. Each type has a view in which strings are sequences of characters and JSON
//! values are trees; contracts speak of the views.

use crate::json::{json_tree, JsonTree};
use crate::rate_limits::{RateLimitSnapshot, SnapshotView};
use serde_json::Value;
use vstd::prelude::*;

verus! {

/// An optional string by its characters.
pub open spec fn text_option(text: Option<String>) -> Option<Seq<char>> {
    match text {
        Some(s) => Some(s@),
        None => None,
    }
}

/// Copies an optional string.
pub fn clone_text_option(text: &Option<String>) -> (r: Option<String>)
    ensures
        r == *text,
{
    match text {
        Some(s) => Some(s.clone()),
        None => None,
    }
}

/// One piece of a message.
#[derive(Debug, PartialEq)]
pub enum ContentItem {
    InputText { text: String },
    InputImage { image_url: String },
    OutputText { text: String },
}

#[verifier::ext_equal]
pub enum ContentItemView {
    InputText { text: Seq<char> },
    InputImage { image_url: Seq<char> },
    OutputText { text: Seq<char> },
}

impl View for ContentItem {
    type V = ContentItemView;

    open spec fn view(&self) -> ContentItemView {
        match *self {
            ContentItem::InputText { text } => ContentItemView::InputText { text: text@ },
            ContentItem::InputImage { image_url } => ContentItemView::InputImage {
                image_url: image_url@,
            },
            ContentItem::OutputText { text } => ContentItemView::OutputText { text: text@ },
        }
    }
}

impl Clone for ContentItem {
    fn clone(&self) -> (r: Self)
        ensures
            r@ == self@,
    {
        match self {
            ContentItem::InputText { text } => ContentItem::InputText { text: text.clone() },
            ContentItem::InputImage { image_url } => ContentItem::InputImage {
                image_url: image_url.clone(),
            },
            ContentItem::OutputText { text } => ContentItem::OutputText { text: text.clone() },
        }
    }
}

/// The views of a message's pieces.
pub open spec fn content_views(content: Seq<ContentItem>) -> Seq<ContentItemView> {
    content.map_values(|item: ContentItem| item@)
}

fn clone_content(content: &Vec<ContentItem>) -> (r: Vec<ContentItem>)
    ensures
        content_views(r@) == content_views(content@),
{
    let mut r: Vec<ContentItem> = Vec::new();
    let mut i: usize = 0;
    while i < content.len()
        invariant
            i <= content.len(),
            r.len() == i,
            forall|j: int| 0 <= j < i ==> (#[trigger] r@[j])@ == content@[j]@,
        decreases content.len() - i,
    {
        r.push(content[i].clone());
        i = i + 1;
    }
    assert(content_views(r@) == content_views(content@));
    r
}

/// One piece of a tool's structured output.
#[derive(Debug, PartialEq)]
pub enum FunctionCallOutputContentItem {
    InputText { text: String },
    InputImage { image_url: String },
}

#[verifier::ext_equal]
pub enum OutputContentView {
    InputText { text: Seq<char> },
    InputImage { image_url: Seq<char> },
}

impl View for FunctionCallOutputContentItem {
    type V = OutputContentView;

    open spec fn view(&self) -> OutputContentView {
        match *self {
            FunctionCallOutputContentItem::InputText { text } => OutputContentView::InputText {
                text: text@,
            },
            FunctionCallOutputContentItem::InputImage {
                image_url,
            } => OutputContentView::InputImage { image_url: image_url@ },
        }
    }
}

impl Clone for FunctionCallOutputContentItem {
    fn clone(&self) -> (r: Self)
        ensures
            r@ == self@,
    {
        match self {
            FunctionCallOutputContentItem::InputText { text } => {
                FunctionCallOutputContentItem::InputText { text: text.clone() }
            },
            FunctionCallOutputContentItem::InputImage { image_url } => {
                FunctionCallOutputContentItem::InputImage { image_url: image_url.clone() }
            },
        }
    }
}

/// The views of a structured output's pieces.
pub open spec fn output_content_views(items: Seq<FunctionCallOutputContentItem>) -> Seq<
    OutputContentView,
> {
    items.map_values(|item: FunctionCallOutputContentItem| item@)
}

/// What a tool answered: a text, and where the tool gave one, a list of pieces.
#[derive(Debug, PartialEq)]
pub struct FunctionCallOutputPayload {
    pub content: String,
    pub content_items: Option<Vec<FunctionCallOutputContentItem>>,
    pub success: Option<bool>,
}

#[verifier::ext_equal]
pub struct OutputView {
    pub content: Seq<char>,
    pub content_items: Option<Seq<OutputContentView>>,
    pub success: Option<bool>,
}

impl View for FunctionCallOutputPayload {
    type V = OutputView;

    open spec fn view(&self) -> OutputView {
        OutputView {
            content: self.content@,
            content_items: match self.content_items {
                Some(items) => Some(output_content_views(items@)),
                None => None,
            },
            success: self.success,
        }
    }
}

impl Clone for FunctionCallOutputPayload {
    fn clone(&self) -> (r: Self)
        ensures
            r@ == self@,
    {
        let content_items: Option<Vec<FunctionCallOutputContentItem>> = match &self.content_items {
            Some(items) => {
                let mut copy: Vec<FunctionCallOutputContentItem> = Vec::new();
                let mut i: usize = 0;
                while i < items.len()
                    invariant
                        i <= items.len(),
                        copy.len() == i,
                        forall|j: int| 0 <= j < i ==> (#[trigger] copy@[j])@ == items@[j]@,
                    decreases items.len() - i,
                {
                    copy.push(items[i].clone());
                    i = i + 1;
                }
                assert(output_content_views(copy@) == output_content_views(items@));
                Some(copy)
            },
            None => None,
        };
        FunctionCallOutputPayload {
            content: self.content.clone(),
            content_items,
            success: self.success,
        }
    }
}

/// One item of a conversation. `rest` holds, as JSON, whatever an item carries besides the
/// fields named here; nothing in this crate looks into it.
#[derive(Debug, PartialEq)]
#[allow(inconsistent_fields)]
pub enum ResponseItem {
    Message { id: Option<String>, role: String, content: Vec<ContentItem> },
    Reasoning { rest: Value },
    LocalShellCall { id: Option<String>, call_id: Option<String>, rest: Value },
    FunctionCall { id: Option<String>, name: String, arguments: String, call_id: String },
    FunctionCallOutput { call_id: String, output: FunctionCallOutputPayload },
    CustomToolCall {
        id: Option<String>,
        status: Option<String>,
        call_id: String,
        name: String,
        input: String,
    },
    CustomToolCallOutput { call_id: String, output: String },
    WebSearchCall { rest: Value },
    GhostSnapshot { rest: Value },
    Compaction { rest: Value },
    Other,
}

#[verifier::ext_equal]
#[allow(inconsistent_fields)]
pub enum ItemView {
    Message { id: Option<Seq<char>>, role: Seq<char>, content: Seq<ContentItemView> },
    Reasoning { rest: JsonTree },
    LocalShellCall { id: Option<Seq<char>>, call_id: Option<Seq<char>>, rest: JsonTree },
    FunctionCall {
        id: Option<Seq<char>>,
        name: Seq<char>,
        arguments: Seq<char>,
        call_id: Seq<char>,
    },
    FunctionCallOutput { call_id: Seq<char>, output: OutputView },
    CustomToolCall {
        id: Option<Seq<char>>,
        status: Option<Seq<char>>,
        call_id: Seq<char>,
        name: Seq<char>,
        input: Seq<char>,
    },
    CustomToolCallOutput { call_id: Seq<char>, output: Seq<char> },
    WebSearchCall { rest: JsonTree },
    GhostSnapshot { rest: JsonTree },
    Compaction { rest: JsonTree },
    Other,
}

impl View for ResponseItem {
    type V = ItemView;

    open spec fn view(&self) -> ItemView {
        match *self {
            ResponseItem::Message { id, role, content } => ItemView::Message {
                id: text_option(id),
                role: role@,
                content: content_views(content@),
            },
            ResponseItem::Reasoning { rest } => ItemView::Reasoning { rest: json_tree(rest) },
            ResponseItem::LocalShellCall { id, call_id, rest } => ItemView::LocalShellCall {
                id: text_option(id),
                call_id: text_option(call_id),
                rest: json_tree(rest),
            },
            ResponseItem::FunctionCall { id, name, arguments, call_id } => ItemView::FunctionCall {
                id: text_option(id),
                name: name@,
                arguments: arguments@,
                call_id: call_id@,
            },
            ResponseItem::FunctionCallOutput { call_id, output } => ItemView::FunctionCallOutput {
                call_id: call_id@,
                output: output@,
            },
            ResponseItem::CustomToolCall {
                id,
                status,
                call_id,
                name,
                input,
            } => ItemView::CustomToolCall {
                id: text_option(id),
                status: text_option(status),
                call_id: call_id@,
                name: name@,
                input: input@,
            },
            ResponseItem::CustomToolCallOutput {
                call_id,
                output,
            } => ItemView::CustomToolCallOutput { call_id: call_id@, output: output@ },
            ResponseItem::WebSearchCall { rest } => ItemView::WebSearchCall {
                rest: json_tree(rest),
            },
            ResponseItem::GhostSnapshot { rest } => ItemView::GhostSnapshot {
                rest: json_tree(rest),
            },
            ResponseItem::Compaction { rest } => ItemView::Compaction { rest: json_tree(rest) },
            ResponseItem::Other => ItemView::Other,
        }
    }
}

impl Clone for ResponseItem {
    fn clone(&self) -> (r: Self)
        ensures
            r@ == self@,
    {
        match self {
            ResponseItem::Message { id, role, content } => ResponseItem::Message {
                id: clone_text_option(id),
                role: role.clone(),
                content: clone_content(content),
            },
            ResponseItem::Reasoning { rest } => ResponseItem::Reasoning { rest: rest.clone() },
            ResponseItem::LocalShellCall { id, call_id, rest } => ResponseItem::LocalShellCall {
                id: clone_text_option(id),
                call_id: clone_text_option(call_id),
                rest: rest.clone(),
            },
            ResponseItem::FunctionCall {
                id,
                name,
                arguments,
                call_id,
            } => ResponseItem::FunctionCall {
                id: clone_text_option(id),
                name: name.clone(),
                arguments: arguments.clone(),
                call_id: call_id.clone(),
            },
            ResponseItem::FunctionCallOutput {
                call_id,
                output,
            } => ResponseItem::FunctionCallOutput {
                call_id: call_id.clone(),
                output: output.clone(),
            },
            ResponseItem::CustomToolCall {
                id,
                status,
                call_id,
                name,
                input,
            } => ResponseItem::CustomToolCall {
                id: clone_text_option(id),
                status: clone_text_option(status),
                call_id: call_id.clone(),
                name: name.clone(),
                input: input.clone(),
            },
            ResponseItem::CustomToolCallOutput {
                call_id,
                output,
            } => ResponseItem::CustomToolCallOutput {
                call_id: call_id.clone(),
                output: output.clone(),
            },
            ResponseItem::WebSearchCall { rest } => ResponseItem::WebSearchCall {
                rest: rest.clone(),
            },
            ResponseItem::GhostSnapshot { rest } => ResponseItem::GhostSnapshot {
                rest: rest.clone(),
            },
            ResponseItem::Compaction { rest } => ResponseItem::Compaction {
                rest: rest.clone(),
            },
            ResponseItem::Other => ResponseItem::Other,
        }
    }
}

/// The views of a conversation's items.
pub open spec fn item_views(items: Seq<ResponseItem>) -> Seq<ItemView> {
    items.map_values(|item: ResponseItem| item@)
}

/// Copies a conversation.
pub fn clone_items(items: &Vec<ResponseItem>) -> (r: Vec<ResponseItem>)
    ensures
        item_views(r@) == item_views(items@),
{
    let mut r: Vec<ResponseItem> = Vec::new();
    let mut i: usize = 0;
    while i < items.len()
        invariant
            i <= items.len(),
            r.len() == i,
            forall|j: int| 0 <= j < i ==> (#[trigger] r@[j])@ == items@[j]@,
        decreases items.len() - i,
    {
        r.push(items[i].clone());
        i = i + 1;
    }
    assert(item_views(r@) == item_views(items@));
    r
}

/// The tokens that a turn was billed for.
#[derive(Debug, Clone, Copy, PartialEq, Eq, Structural)]
pub struct TokenUsage {
    pub input_tokens: i64,
    pub cached_input_tokens: i64,
    pub output_tokens: i64,
    pub reasoning_output_tokens: i64,
    pub total_tokens: i64,
}

/// What a response stream reports.
#[derive(Debug, PartialEq)]
pub enum ResponseEvent {
    OutputItemAdded(ResponseItem),
    OutputTextDelta(String),
    OutputItemDone(ResponseItem),
    Completed { response_id: String, token_usage: Option<TokenUsage> },
    RateLimits(RateLimitSnapshot),
}

#[verifier::ext_equal]
pub enum ResponseEventView {
    OutputItemAdded(ItemView),
    OutputTextDelta(Seq<char>),
    OutputItemDone(ItemView),
    Completed { response_id: Seq<char>, token_usage: Option<TokenUsage> },
    RateLimits(SnapshotView),
}

impl View for ResponseEvent {
    type V = ResponseEventView;

    open spec fn view(&self) -> ResponseEventView {
        match *self {
            ResponseEvent::OutputItemAdded(item) => ResponseEventView::OutputItemAdded(item@),
            ResponseEvent::OutputTextDelta(text) => ResponseEventView::OutputTextDelta(text@),
            ResponseEvent::OutputItemDone(item) => ResponseEventView::OutputItemDone(item@),
            ResponseEvent::Completed {
                response_id,
                token_usage,
            } => ResponseEventView::Completed { response_id: response_id@, token_usage },
            ResponseEvent::RateLimits(snapshot) => ResponseEventView::RateLimits(snapshot@),
        }
    }
}

/// Why a request or its response stream failed.
#[derive(Debug, PartialEq)]
pub enum ApiError {
    /// The client was set up for something it cannot do.
    Config(String),
    /// The stream ended other than by its regular end.
    Stream(String),
}

#[verifier::ext_equal]
pub enum ApiErrorView {
    Config(Seq<char>),
    Stream(Seq<char>),
}

impl View for ApiError {
    type V = ApiErrorView;

    open spec fn view(&self) -> ApiErrorView {
        match *self {
            ApiError::Config(message) => ApiErrorView::Config(message@),
            ApiError::Stream(message) => ApiErrorView::Stream(message@),
        }
    }
}

/// What the crate reads of a model family.
#[derive(Debug, Clone, PartialEq)]
pub struct ModelFamily {
    /// The name by which requests ask for the model.
    pub slug: String,
    pub base_instructions: String,
    pub needs_special_apply_patch_instructions: bool,
    pub supports_parallel_tool_calls: bool,
    pub context_window: Option<i64>,
    /// The number of tokens at which the conversation is compacted, where there is one.
    pub auto_compact_token_limit: Option<i64>,
}

} // verus!
