//! The MCP server's request handling: which method a request names, and what
//! a tool call does with its arguments.
use vstd::prelude::*;
use crate::agent::{AgentContext, AgentGraph, cycle_text};
use crate::text::{chars_of, trim, trim_chars};
use crate::tools::ToolSchema;

verus! {

/// The JSON-RPC error code for an internal error.
pub const INTERNAL_ERROR_CODE: i64 = -32603;

/// The input schema of `quantum_sim`, as JSON text.
pub const QUANTUM_SIM_SCHEMA: &'static str = "{\"type\":\"object\",\"properties\":{\"branches\":{\"type\":\"integer\"}}}";

/// The input schema of `agent_react_step`, as JSON text.
pub const AGENT_STEP_SCHEMA: &'static str = "{\"type\":\"object\",\"properties\":{\"input\":{\"type\":\"string\"}}}";

/// Whether a request line holds nothing but white space: such a line is
/// skipped without an answer.
pub fn is_blank_line(line: &str) -> (b: bool)
    ensures
        b == (trim(line@).len() == 0),
{
    let v = chars_of(line);
    trim_chars(&v).len() == 0
}

/// The tools the server lists, in order: the Ψ-branching simulation and the
/// agent step.
pub fn list_tools() -> (tools: Vec<ToolSchema>)
    ensures
        tools@.len() == 2,
        tools@[0].name@ == "quantum_sim"@,
        tools@[0].description@ == "Run a Ψ-Branching Quantum Simulation"@,
        tools@[0].input_schema@ == QUANTUM_SIM_SCHEMA@,
        tools@[1].name@ == "agent_react_step"@,
        tools@[1].description@ == "Execute a ReAct Agent Step via GraphFlow"@,
        tools@[1].input_schema@ == AGENT_STEP_SCHEMA@,
{
    let mut tools: Vec<ToolSchema> = Vec::new();
    tools.push(ToolSchema {
        name: String::from_str("quantum_sim"),
        description: String::from_str("Run a Ψ-Branching Quantum Simulation"),
        input_schema: String::from_str(QUANTUM_SIM_SCHEMA),
    });
    tools.push(ToolSchema {
        name: String::from_str("agent_react_step"),
        description: String::from_str("Execute a ReAct Agent Step via GraphFlow"),
        input_schema: String::from_str(AGENT_STEP_SCHEMA),
    });
    tools
}

/// What the server says of itself when a client initializes.
pub struct ServerInfo {
    pub protocol_version: String,
    pub name: String,
    pub version: String,
}

/// The answer to `initialize`: MCP protocol version 2024-11-05, the server
/// `quantum_neofuse_mcp` at version 0.1.0 (with tool support).
pub fn server_info() -> (info: ServerInfo)
    ensures
        info.protocol_version@ == "2024-11-05"@,
        info.name@ == "quantum_neofuse_mcp"@,
        info.version@ == "0.1.0"@,
{
    ServerInfo {
        protocol_version: String::from_str("2024-11-05"),
        name: String::from_str("quantum_neofuse_mcp"),
        version: String::from_str("0.1.0"),
    }
}

/// The methods the server answers.
#[derive(PartialEq, Eq, Structural, Debug, Clone, Copy)]
pub enum McpMethod {
    Initialize,
    ListTools,
    CallTool,
    NotFound,
}

/// The method that `method` names.
pub open spec fn method_of(method: Seq<char>) -> McpMethod {
    if method == "initialize"@ {
        McpMethod::Initialize
    } else if method == "tools/list"@ {
        McpMethod::ListTools
    } else if method == "tools/call"@ {
        McpMethod::CallTool
    } else {
        McpMethod::NotFound
    }
}

/// Routes a request by its method name.
pub fn route_method(method: &str) -> (m: McpMethod)
    ensures
        m == method_of(method@),
{
    let name = String::from_str(method);
    if name == String::from_str("initialize") {
        McpMethod::Initialize
    } else if name == String::from_str("tools/list") {
        McpMethod::ListTools
    } else if name == String::from_str("tools/call") {
        McpMethod::CallTool
    } else {
        McpMethod::NotFound
    }
}

/// The error message for a method the server does not answer.
pub fn method_not_found_message(method: &str) -> (msg: String)
    ensures
        msg@ == "Method not found: "@ + method@,
{
    let mut msg = String::from_str("Method not found: ");
    msg.append(method);
    msg
}

/// The arguments of a tool call that the tools read: the tool's name, the
/// simulation's branch count and the agent's input, each when given.
pub struct CallToolParams {
    pub name: Option<String>,
    pub branches: Option<u64>,
    pub input: Option<String>,
}

/// What a tool call gives.
#[derive(Debug)]
pub enum CallToolOutcome {
    /// Run a Ψ-branching simulation with this many branches.
    QuantumSim { branches: usize },
    /// Answer with this text.
    Text(String),
}

/// Handles a tool call: `quantum_sim` simulates the given number of branches
/// (two when none is given); `agent_react_step` takes one step of a fresh
/// agent on the given input (`Thinking...` when none is given); any other
/// name answers `Tool not found`.
pub fn handle_call_tool(params: &CallToolParams) -> (out: CallToolOutcome)
    ensures
        ({
            let name = match params.name {
                Some(n) => n@,
                None => Seq::<char>::empty(),
            };
            if name == "quantum_sim"@ {
                out == CallToolOutcome::QuantumSim {
                    branches: match params.branches {
                        Some(b) => b as usize,
                        None => 2usize,
                    },
                }
            } else if name == "agent_react_step"@ {
                out matches CallToolOutcome::Text(t) && t@ == cycle_text(1)
            } else {
                out matches CallToolOutcome::Text(t) && t@ == "Tool not found"@
            }
        }),
{
    let name = match &params.name {
        Some(n) => n.clone(),
        None => String::new(),
    };
    if name == String::from_str("quantum_sim") {
        let branches: u64 = match params.branches {
            Some(b) => b,
            None => 2,
        };
        CallToolOutcome::QuantumSim { branches: branches as usize }
    } else if name == String::from_str("agent_react_step") {
        let input = match &params.input {
            Some(t) => t.clone(),
            None => String::from_str("Thinking..."),
        };
        let mut ctx = AgentContext::new();
        let text = AgentGraph::step(&mut ctx, input.as_str());
        CallToolOutcome::Text(text)
    } else {
        CallToolOutcome::Text(String::from_str("Tool not found"))
    }
}

} // verus!
