//! The built-in tools: their schemas, the arguments they read with their
//! defaults, and the registry that finds a tool by name.
use vstd::prelude::*;

verus! {

/// The input schema of the `web_search` tool, as JSON text.
pub const WEB_SEARCH_SCHEMA: &'static str = "{\"type\":\"object\",\"properties\":{\"query\":{\"type\":\"string\",\"description\":\"The search query\"},\"num_results\":{\"type\":\"integer\",\"description\":\"Number of results to return\",\"default\":5}},\"required\":[\"query\"]}";

/// The input schema of the `memory_store` tool, as JSON text.
pub const MEMORY_STORE_SCHEMA: &'static str = "{\"type\":\"object\",\"properties\":{\"key\":{\"type\":\"string\",\"description\":\"Unique identifier for this memory\"},\"value\":{\"type\":\"string\",\"description\":\"The information to store\"},\"ttl_seconds\":{\"type\":\"integer\",\"description\":\"Optional: Time-to-live in seconds\"}},\"required\":[\"key\",\"value\"]}";

/// The input schema of the `memory_recall` tool, as JSON text.
pub const MEMORY_RECALL_SCHEMA: &'static str = "{\"type\":\"object\",\"properties\":{\"key\":{\"type\":\"string\",\"description\":\"The key to recall\"}},\"required\":[\"key\"]}";

/// The input schema of the `code_execute` tool, as JSON text.
pub const CODE_EXECUTE_SCHEMA: &'static str = "{\"type\":\"object\",\"properties\":{\"language\":{\"type\":\"string\",\"enum\":[\"python\",\"javascript\",\"shell\"],\"description\":\"Programming language\"},\"code\":{\"type\":\"string\",\"description\":\"Code to execute\"},\"timeout_ms\":{\"type\":\"integer\",\"description\":\"Execution timeout in milliseconds\",\"default\":5000}},\"required\":[\"language\",\"code\"]}";

/// Schema describing a tool's interface (OpenAI-compatible format).
pub struct ToolSchema {
    /// Unique tool name
    pub name: String,
    /// Human-readable description
    pub description: String,
    /// JSON Schema for the input parameters, as JSON text
    pub input_schema: String,
}

/// The built-in tools.
#[derive(PartialEq, Eq, Structural, Clone, Copy, Debug)]
pub enum ToolKind {
    WebSearch,
    MemoryStore,
    MemoryRecall,
    CodeExecute,
}

/// Web search tool: searches the web for information.
pub struct WebSearchTool;

/// Memory store tool: stores key-value data persistently.
pub struct MemoryStoreTool;

/// Memory recall tool: retrieves previously stored information.
pub struct MemoryRecallTool;

/// Code execution tool: executes code snippets in a sandbox.
pub struct CodeExecuteTool;

/// The name of a tool.
pub open spec fn tool_name(k: ToolKind) -> Seq<char> {
    match k {
        ToolKind::WebSearch => "web_search"@,
        ToolKind::MemoryStore => "memory_store"@,
        ToolKind::MemoryRecall => "memory_recall"@,
        ToolKind::CodeExecute => "code_execute"@,
    }
}

/// The description of a tool.
pub open spec fn tool_description(k: ToolKind) -> Seq<char> {
    match k {
        ToolKind::WebSearch => "Search the web for current information on any topic"@,
        ToolKind::MemoryStore => "Store information for later recall. Use for important facts or context."@,
        ToolKind::MemoryRecall => "Recall previously stored information by key"@,
        ToolKind::CodeExecute => "Execute code in a sandboxed environment. Supports Python, JavaScript, and shell commands."@,
    }
}

/// The input schema of a tool, as JSON text.
pub open spec fn tool_input_schema(k: ToolKind) -> Seq<char> {
    match k {
        ToolKind::WebSearch => WEB_SEARCH_SCHEMA@,
        ToolKind::MemoryStore => MEMORY_STORE_SCHEMA@,
        ToolKind::MemoryRecall => MEMORY_RECALL_SCHEMA@,
        ToolKind::CodeExecute => CODE_EXECUTE_SCHEMA@,
    }
}

/// The built-in tool named `name`, if any.
pub open spec fn kind_named(name: Seq<char>) -> Option<ToolKind> {
    if name == "web_search"@ {
        Some(ToolKind::WebSearch)
    } else if name == "memory_store"@ {
        Some(ToolKind::MemoryStore)
    } else if name == "memory_recall"@ {
        Some(ToolKind::MemoryRecall)
    } else if name == "code_execute"@ {
        Some(ToolKind::CodeExecute)
    } else {
        None
    }
}

/// The tools of a new registry, in order.
pub open spec fn default_tools() -> Seq<ToolKind> {
    seq![ToolKind::WebSearch, ToolKind::MemoryStore, ToolKind::MemoryRecall, ToolKind::CodeExecute]
}

/// The schema of tool `k`.
pub fn tool_schema(k: ToolKind) -> (s: ToolSchema)
    ensures
        s.name@ == tool_name(k),
        s.description@ == tool_description(k),
        s.input_schema@ == tool_input_schema(k),
{
    match k {
        ToolKind::WebSearch => ToolSchema {
            name: String::from_str("web_search"),
            description: String::from_str("Search the web for current information on any topic"),
            input_schema: String::from_str(WEB_SEARCH_SCHEMA),
        },
        ToolKind::MemoryStore => ToolSchema {
            name: String::from_str("memory_store"),
            description: String::from_str(
                "Store information for later recall. Use for important facts or context.",
            ),
            input_schema: String::from_str(MEMORY_STORE_SCHEMA),
        },
        ToolKind::MemoryRecall => ToolSchema {
            name: String::from_str("memory_recall"),
            description: String::from_str("Recall previously stored information by key"),
            input_schema: String::from_str(MEMORY_RECALL_SCHEMA),
        },
        ToolKind::CodeExecute => ToolSchema {
            name: String::from_str("code_execute"),
            description: String::from_str(
                "Execute code in a sandboxed environment. Supports Python, JavaScript, and shell commands.",
            ),
            input_schema: String::from_str(CODE_EXECUTE_SCHEMA),
        },
    }
}

impl WebSearchTool {
    /// The schema of the web search tool.
    pub fn schema(&self) -> (s: ToolSchema)
        ensures
            s.name@ == tool_name(ToolKind::WebSearch),
            s.description@ == tool_description(ToolKind::WebSearch),
            s.input_schema@ == tool_input_schema(ToolKind::WebSearch),
    {
        tool_schema(ToolKind::WebSearch)
    }
}

impl MemoryStoreTool {
    /// The schema of the memory store tool.
    pub fn schema(&self) -> (s: ToolSchema)
        ensures
            s.name@ == tool_name(ToolKind::MemoryStore),
            s.description@ == tool_description(ToolKind::MemoryStore),
            s.input_schema@ == tool_input_schema(ToolKind::MemoryStore),
    {
        tool_schema(ToolKind::MemoryStore)
    }
}

impl MemoryRecallTool {
    /// The schema of the memory recall tool.
    pub fn schema(&self) -> (s: ToolSchema)
        ensures
            s.name@ == tool_name(ToolKind::MemoryRecall),
            s.description@ == tool_description(ToolKind::MemoryRecall),
            s.input_schema@ == tool_input_schema(ToolKind::MemoryRecall),
    {
        tool_schema(ToolKind::MemoryRecall)
    }
}

impl CodeExecuteTool {
    /// The schema of the code execution tool.
    pub fn schema(&self) -> (s: ToolSchema)
        ensures
            s.name@ == tool_name(ToolKind::CodeExecute),
            s.description@ == tool_description(ToolKind::CodeExecute),
            s.input_schema@ == tool_input_schema(ToolKind::CodeExecute),
    {
        tool_schema(ToolKind::CodeExecute)
    }
}

/// The arguments that the tools read, each when given as a value of the
/// right JSON type.
pub struct ToolArgs {
    pub query: Option<String>,
    pub num_results: Option<u64>,
    pub key: Option<String>,
    pub value: Option<String>,
    pub ttl_seconds: Option<u64>,
    pub language: Option<String>,
    pub code: Option<String>,
}

/// `o`'s string, or `d` when there is none.
pub open spec fn or_default(o: Option<String>, d: Seq<char>) -> Seq<char> {
    match o {
        Some(s) => s@,
        None => d,
    }
}

fn string_or(o: &Option<String>, d: &str) -> (s: String)
    ensures
        s@ == or_default(*o, d@),
{
    match o {
        Some(s) => s.clone(),
        None => String::from_str(d),
    }
}

impl ToolArgs {
    /// The search query (empty when not given).
    pub fn query(&self) -> (s: String)
        ensures
            s@ == or_default(self.query, Seq::<char>::empty()),
    {
        match &self.query {
            Some(q) => q.clone(),
            None => String::new(),
        }
    }

    /// The number of results asked for (five when not given).
    pub fn num_results(&self) -> (n: u64)
        ensures
            n == match self.num_results {
                Some(k) => k,
                None => 5,
            },
    {
        match self.num_results {
            Some(k) => k,
            None => 5,
        }
    }

    /// The memory key (`default` when not given).
    pub fn key(&self) -> (s: String)
        ensures
            s@ == or_default(self.key, "default"@),
    {
        string_or(&self.key, "default")
    }

    /// The value to store (empty when not given).
    pub fn value(&self) -> (s: String)
        ensures
            s@ == or_default(self.value, Seq::<char>::empty()),
    {
        match &self.value {
            Some(v) => v.clone(),
            None => String::new(),
        }
    }

    /// The programming language (`unknown` when not given).
    pub fn language(&self) -> (s: String)
        ensures
            s@ == or_default(self.language, "unknown"@),
    {
        string_or(&self.language, "unknown")
    }

    /// The code to run (empty when not given).
    pub fn code(&self) -> (s: String)
        ensures
            s@ == or_default(self.code, Seq::<char>::empty()),
    {
        match &self.code {
            Some(c) => c.clone(),
            None => String::new(),
        }
    }
}

/// Registry of all available tools.
pub struct ToolRegistry {
    pub tools: Vec<ToolKind>,
}

impl ToolRegistry {
    /// A registry with the four built-in tools.
    pub fn new() -> (r: ToolRegistry)
        ensures
            r.tools@ == default_tools(),
    {
        let mut tools: Vec<ToolKind> = Vec::new();
        tools.push(ToolKind::WebSearch);
        tools.push(ToolKind::MemoryStore);
        tools.push(ToolKind::MemoryRecall);
        tools.push(ToolKind::CodeExecute);
        assert(tools@ =~= default_tools());
        ToolRegistry { tools }
    }

    /// The schemas of all tools, in order.
    pub fn schemas(&self) -> (s: Vec<ToolSchema>)
        ensures
            s@.len() == self.tools@.len(),
            forall|i: int|
                0 <= i < s@.len() ==> {
                    &&& (#[trigger] s@[i]).name@ == tool_name(self.tools@[i])
                    &&& s@[i].description@ == tool_description(self.tools@[i])
                    &&& s@[i].input_schema@ == tool_input_schema(self.tools@[i])
                },
    {
        let mut out: Vec<ToolSchema> = Vec::new();
        let n = self.tools.len();
        let mut i: usize = 0;
        while i < n
            invariant
                i <= n == self.tools@.len(),
                out@.len() == i,
                forall|j: int|
                    0 <= j < i ==> {
                        &&& (#[trigger] out@[j]).name@ == tool_name(self.tools@[j])
                        &&& out@[j].description@ == tool_description(self.tools@[j])
                        &&& out@[j].input_schema@ == tool_input_schema(self.tools@[j])
                    },
            decreases n - i,
        {
            out.push(tool_schema(self.tools[i]));
            i = i + 1;
        }
        out
    }

    /// The first tool whose name is `name`.
    pub fn find(&self, name: &str) -> (r: Option<ToolKind>)
        ensures
            match r {
                Some(k) => exists|i: int|
                    0 <= i < self.tools@.len() && self.tools@[i] == k && tool_name(k) == name@
                        && forall|j: int| 0 <= j < i ==> tool_name(#[trigger] self.tools@[j]) != name@,
                None => forall|j: int|
                    0 <= j < self.tools@.len() ==> tool_name(#[trigger] self.tools@[j]) != name@,
            },
    {
        let n = self.tools.len();
        let wanted = String::from_str(name);
        let mut i: usize = 0;
        while i < n
            invariant
                i <= n == self.tools@.len(),
                wanted@ == name@,
                forall|j: int| 0 <= j < i ==> tool_name(#[trigger] self.tools@[j]) != name@,
            decreases n - i,
        {
            let k = self.tools[i];
            let s = tool_schema(k);
            if s.name == wanted {
                return Some(k);
            }
            i = i + 1;
        }
        None
    }
}

impl Default for ToolRegistry {
    fn default() -> (r: ToolRegistry)
        ensures
            r.tools@ == default_tools(),
    {
        ToolRegistry::new()
    }
}

/// Looking a name up in a new registry gives the built-in tool of that name.
pub proof fn law_registry_finds_by_name(name: Seq<char>)
    ensures
        kind_named(name) matches Some(k) ==> {
            &&& tool_name(k) == name
            &&& exists|i: int| 0 <= i < 4 && default_tools()[i] == k && forall|j: int|
                0 <= j < i ==> tool_name(#[trigger] default_tools()[j]) != name
        },
        kind_named(name) is None ==> forall|j: int|
            0 <= j < 4 ==> tool_name(#[trigger] default_tools()[j]) != name,
{
    reveal_strlit("web_search");
    reveal_strlit("memory_store");
    reveal_strlit("memory_recall");
    reveal_strlit("code_execute");
    let t = default_tools();
    assert(t[0] == ToolKind::WebSearch && t[1] == ToolKind::MemoryStore && t[2]
        == ToolKind::MemoryRecall && t[3] == ToolKind::CodeExecute);
    if kind_named(name) is None {
        assert forall|j: int| 0 <= j < 4 implies tool_name(#[trigger] t[j]) != name by {
            if j == 0 {} else if j == 1 {} else if j == 2 {} else {}
        }
    } else {
        let k = kind_named(name)->0;
        let i = if name == "web_search"@ { 0int } else if name == "memory_store"@ { 1int }
            else if name == "memory_recall"@ { 2int } else { 3int };
        assert(t[i] == k);
        assert forall|j: int| 0 <= j < i implies tool_name(#[trigger] t[j]) != name by {
            if j == 0 {} else if j == 1 {} else {}
        }
    }
}

} // verus!
