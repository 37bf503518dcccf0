# nexus_agent

The decision logic of the NEXUS agent servers, verified with Verus.

- `src/` — the verified library:
  - `text`: character-level string operations (`lines`, `trim`, `find`,
    `split`, decimal and hexadecimal numerals, `u32` parsing), each stated
    over `Seq<char>`.
  - `memory`: the string key-value memory of agents and sessions.
  - `agent`: the MCP server's graph agent, its step budget and the law that
    the budget bounds what a run of steps remembers.
  - `mcp`: method routing, the tool list, request-line skipping and tool
    calls of the MCP server.
  - `quantum`: naming of simulation branches.
  - `state`: session state and session identifiers.
  - `react`: the ReAct loop — its context, how a model response is read, and
    the loop's state machine (`ReActRun`), which hands tool calls out and
    takes their results back.
  - `auth`: the access-token checks (shape, header, key, signature verdict,
    claims: issuer, audience, expiry, admin).
  - `tools`, `rpc`: tool schemas, the tool registry and the built-in handlers'
    plans.
  - `invoke`: the checks and settings of an agent invocation.
  - `json`: the JSON values the library carries.
- `app/` — the programs around it: the MCP stdio server (`main.rs`,
  `quantum.rs`) and the Cloudflare Worker (`agent_cgi/`), which do the I/O,
  the JSON building and the awaiting, and call the library for every decision.
- `tests/` — tests of the library on concrete values.
