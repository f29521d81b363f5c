//! The tools that a request offers to the model.

use serde_json::Value;
use vstd::prelude::*;

verus! {

/// A tool on offer.
#[derive(Debug, Clone, PartialEq)]
pub enum ToolSpec {
    Function(ResponsesApiTool),
    LocalShell {},
    WebSearch {},
    Freeform(FreeformTool),
}

/// A tool whose input is free text in a given format.
#[derive(Debug, Clone, PartialEq)]
pub struct FreeformTool {
    pub name: String,
    pub description: String,
    pub format: FreeformToolFormat,
}

/// The format of a free-text input.
#[derive(Debug, Clone, PartialEq)]
pub struct FreeformToolFormat {
    pub kind: String,
    pub syntax: String,
    pub definition: String,
}

/// A tool whose input is JSON of a given schema.
#[derive(Debug, Clone, PartialEq)]
pub struct ResponsesApiTool {
    pub name: String,
    pub description: String,
    pub strict: bool,
    /// The input's JSON schema.
    pub parameters: Value,
}

impl ToolSpec {
    /// The name by which the model calls the tool.
    pub open spec fn spec_name(&self) -> Seq<char> {
        match *self {
            ToolSpec::Function(tool) => tool.name@,
            ToolSpec::LocalShell {} => "local_shell"@,
            ToolSpec::WebSearch {} => "web_search"@,
            ToolSpec::Freeform(tool) => tool.name@,
        }
    }

    /// The name by which the model calls the tool.
    pub fn name(&self) -> (r: &str)
        ensures
            r@ == self.spec_name(),
    {
        match self {
            ToolSpec::Function(tool) => tool.name.as_str(),
            ToolSpec::LocalShell {} => "local_shell",
            ToolSpec::WebSearch {} => "web_search",
            ToolSpec::Freeform(tool) => tool.name.as_str(),
        }
    }
}

/// Whether a tool is the patch tool, offered with free-text input.
pub open spec fn freeform_apply_patch(tool: ToolSpec) -> bool {
    tool matches ToolSpec::Freeform(f) && f.name@ == "apply_patch"@
}

/// Whether a tool is the patch tool, offered with either kind of input.
pub open spec fn apply_patch(tool: ToolSpec) -> bool {
    freeform_apply_patch(tool) || (tool matches ToolSpec::Function(f) && f.name@ == "apply_patch"@)
}

} // verus!
