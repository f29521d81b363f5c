//! The request payload of one model turn.

use crate::models::{clone_items, item_views, ItemView, ModelFamily, ResponseItem};
use crate::shell_output::{reserialize_shell_outputs, reserialized, ExecOutputJson};
use crate::text::same_text;
use crate::tools::{apply_patch, freeform_apply_patch, ToolSpec};
use serde_json::Value;
use vstd::prelude::*;
use vstd::string::StringExecFns;

verus! {

/// Request payload for a single model turn.
#[derive(Debug, Clone)]
pub struct Prompt {
    /// The conversation so far.
    pub input: Vec<ResponseItem>,
    /// What the output text of each item decodes to as a shell result: entry `i` belongs to
    /// `input[i]`. No entry means that it does not decode.
    pub shell_outputs: Vec<Option<ExecOutputJson>>,
    /// The tools on offer.
    pub tools: Vec<ToolSpec>,
    /// Whether the model may call several tools at once.
    pub parallel_tool_calls: bool,
    /// Instructions in place of the model's own.
    pub base_instructions_override: Option<String>,
    /// The schema that the model's answer has to meet.
    pub output_schema: Option<Value>,
}

impl Default for Prompt {
    fn default() -> (r: Self)
        ensures
            r.input@.len() == 0,
            r.shell_outputs@.len() == 0,
            r.tools@.len() == 0,
            !r.parallel_tool_calls,
            r.base_instructions_override is None,
            r.output_schema is None,
    {
        Prompt {
            input: Vec::new(),
            shell_outputs: Vec::new(),
            tools: Vec::new(),
            parallel_tool_calls: false,
            base_instructions_override: None,
            output_schema: None,
        }
    }
}

impl Prompt {
    /// Whether the patch tool is on offer, with either kind of input.
    pub open spec fn offers_apply_patch(&self) -> bool {
        exists|i: int| 0 <= i < self.tools@.len() && apply_patch(#[trigger] self.tools@[i])
    }

    /// Whether the patch tool is on offer with free-text input.
    pub open spec fn offers_freeform_apply_patch(&self) -> bool {
        exists|i: int| 0 <= i < self.tools@.len() && freeform_apply_patch(#[trigger] self.tools@[i])
    }

    /// The instructions of a request: the override where there is one; else the model's own, with
    /// the patch tool's instructions on the next line where the model needs them and no patch
    /// tool is on offer.
    pub open spec fn full_instructions(
        &self,
        model: ModelFamily,
        apply_patch_instructions: Seq<char>,
    ) -> Seq<char> {
        match self.base_instructions_override {
            Some(instructions) => instructions@,
            None => if model.needs_special_apply_patch_instructions && !self.offers_apply_patch() {
                model.base_instructions@ + "\n"@ + apply_patch_instructions
            } else {
                model.base_instructions@
            },
        }
    }

    /// The conversation as a request states it: with shell outputs rewritten where the patch tool
    /// is on offer with free-text input.
    pub open spec fn formatted_input(&self) -> Seq<ItemView> {
        if self.offers_freeform_apply_patch() {
            reserialized(item_views(self.input@), self.shell_outputs@)
        } else {
            item_views(self.input@)
        }
    }

    /// The instructions of a request. `apply_patch_instructions` are those of the patch tool.
    pub fn get_full_instructions(&self, model: &ModelFamily, apply_patch_instructions: &str) -> (r:
        String)
        ensures
            r@ == self.full_instructions(*model, apply_patch_instructions@),
            self.base_instructions_override matches Some(instructions) ==> r@ == instructions@,
    {
        match &self.base_instructions_override {
            Some(instructions) => instructions.clone(),
            None => {
                let mut r = model.base_instructions.clone();
                if model.needs_special_apply_patch_instructions && !self.has_apply_patch() {
                    r.append("\n");
                    r.append(apply_patch_instructions);
                }
                r
            },
        }
    }

    fn has_apply_patch(&self) -> (r: bool)
        ensures
            r == self.offers_apply_patch(),
    {
        let mut i: usize = 0;
        while i < self.tools.len()
            invariant
                i <= self.tools.len(),
                forall|j: int| 0 <= j < i ==> !apply_patch(#[trigger] self.tools@[j]),
            decreases self.tools.len() - i,
        {
            let present: bool = match &self.tools[i] {
                ToolSpec::Function(f) => same_text(f.name.as_str(), "apply_patch"),
                ToolSpec::Freeform(f) => same_text(f.name.as_str(), "apply_patch"),
                _ => false,
            };
            if present {
                assert(apply_patch(self.tools@[i as int]));
                return true;
            }
            i = i + 1;
        }
        false
    }

    fn has_freeform_apply_patch(&self) -> (r: bool)
        ensures
            r == self.offers_freeform_apply_patch(),
    {
        let mut i: usize = 0;
        while i < self.tools.len()
            invariant
                i <= self.tools.len(),
                forall|j: int| 0 <= j < i ==> !freeform_apply_patch(#[trigger] self.tools@[j]),
            decreases self.tools.len() - i,
        {
            let present: bool = match &self.tools[i] {
                ToolSpec::Freeform(f) => same_text(f.name.as_str(), "apply_patch"),
                _ => false,
            };
            if present {
                assert(freeform_apply_patch(self.tools@[i as int]));
                return true;
            }
            i = i + 1;
        }
        false
    }

    /// The conversation as a request states it. Outputs of the shell and the patch tool are
    /// rewritten as structured text only where the patch tool takes free text: where it takes
    /// JSON, they stay JSON.
    pub fn get_formatted_input(&self) -> (r: Vec<ResponseItem>)
        ensures
            item_views(r@) == self.formatted_input(),
            r@.len() == self.input@.len(),
            !self.offers_freeform_apply_patch() ==> item_views(r@) == item_views(self.input@),
    {
        let mut input = clone_items(&self.input);
        if self.has_freeform_apply_patch() {
            reserialize_shell_outputs(&mut input, &self.shell_outputs);
        }
        assert(item_views(input@).len() == self.formatted_input().len());
        input
    }
}

} // verus!
