//! Tool dispatch: the requests and responses that travel to the tool worker,
//! and what the built-in handlers do when no tool worker is bound.
use vstd::prelude::*;
use crate::text::push_decimal;
use crate::tools::{ToolArgs, ToolKind, kind_named, or_default, tool_name};

verus! {

/// Request structure for tool dispatch.
pub struct ToolRequest {
    pub name: String,
    pub arguments: serde_json::Value,
}

/// Response structure from tool dispatch.
pub struct ToolResponse {
    pub success: bool,
    pub result: Option<serde_json::Value>,
    pub error: Option<String>,
}

/// What a built-in handler does for a call.
pub enum BuiltinPlan {
    /// Answer a placeholder search result for `query`, with `snippet`.
    WebSearch { query: String, snippet: String },
    /// Store `value` under `key`.
    MemoryStore { key: String, value: String },
    /// Recall the value under `key`.
    MemoryRecall { key: String },
    /// Report that running `language` code needs a sandbox.
    CodeExecute { language: String },
    /// Report that no tool has this name, with `error`.
    Unknown { error: String },
}

/// The snippet of the placeholder search result for `query`.
pub open spec fn snippet_text(query: Seq<char>) -> Seq<char> {
    "This is a placeholder result for query: '"@ + query + "'"@
}

/// The error for a tool name that no handler knows.
pub open spec fn unknown_tool_text(name: Seq<char>) -> Seq<char> {
    "Unknown tool: "@ + name
}

/// Plans the built-in handling of a call to `tool_name` with `args`: the
/// handler of the tool of that name, reading its arguments with their
/// defaults, or the unknown-tool error.
pub fn dispatch_builtin(tool: &str, args: &ToolArgs) -> (plan: BuiltinPlan)
    ensures
        match kind_named(tool@) {
            Some(ToolKind::WebSearch) => plan matches BuiltinPlan::WebSearch { query, snippet } && query@
                == or_default(args.query, Seq::<char>::empty()) && snippet@ == snippet_text(query@),
            Some(ToolKind::MemoryStore) => plan matches BuiltinPlan::MemoryStore { key, value } && key@
                == or_default(args.key, "default"@) && value@ == or_default(args.value, Seq::<char>::empty()),
            Some(ToolKind::MemoryRecall) => plan matches BuiltinPlan::MemoryRecall { key } && key@
                == or_default(args.key, "default"@),
            Some(ToolKind::CodeExecute) => plan matches BuiltinPlan::CodeExecute { language }
                && language@ == or_default(args.language, "unknown"@),
            None => plan matches BuiltinPlan::Unknown { error } && error@ == unknown_tool_text(tool@),
        },
{
    let name = String::from_str(tool);
    if name == String::from_str("web_search") {
        let query = args.query();
        let mut snippet = String::from_str("This is a placeholder result for query: '");
        snippet.append(query.as_str());
        snippet.append("'");
        BuiltinPlan::WebSearch { query, snippet }
    } else if name == String::from_str("memory_store") {
        BuiltinPlan::MemoryStore { key: args.key(), value: args.value() }
    } else if name == String::from_str("memory_recall") {
        BuiltinPlan::MemoryRecall { key: args.key() }
    } else if name == String::from_str("code_execute") {
        BuiltinPlan::CodeExecute { language: args.language() }
    } else {
        let mut error = String::from_str("Unknown tool: ");
        error.append(tool);
        BuiltinPlan::Unknown { error }
    }
}

/// The error for a tool worker that answered with a status other than 200.
pub fn dispatch_failed_message(status: u16, body: &str) -> (msg: String)
    ensures
        msg@ == "Tool dispatch failed ("@ + crate::text::decimal(status as nat) + "): "@ + body@,
{
    let mut msg = String::from_str("Tool dispatch failed (");
    push_decimal(&mut msg, status as u64);
    msg.append("): ");
    msg.append(body);
    msg
}

/// The built-in handlers and the tool registry know the same tools: a call is
/// handled by a built-in tool exactly when a tool of that name is registered,
/// and then by that very tool.
pub proof fn law_builtins_match_registry(name: Seq<char>)
    ensures
        kind_named(name) matches Some(k) ==> tool_name(k) == name,
        kind_named(name) is None ==> forall|k: ToolKind| tool_name(k) != name,
{
    reveal_strlit("web_search");
    reveal_strlit("memory_store");
    reveal_strlit("memory_recall");
    reveal_strlit("code_execute");
}

} // verus!
