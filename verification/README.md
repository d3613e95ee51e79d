# codei

The verified core of CodeI, a terminal-first AI coding agent, written in Verus.

`src/` is the library: every function in it is verified against its `requires` /
`ensures` contract. It holds the agent's logic — slash-command parsing and
execution, the streaming protocols of the OpenAI and Anthropic chat APIs (SSE
framing, chunk and event mapping, assembly of tool calls), provider selection,
configuration defaults and overrides, skills, MCP tool naming and JSON-RPC response
matching, the turn and compaction state machines, and the session views of the web
server — together with the laws that hold across its functions:

- `agent::lemma_round_limit`, `agent::lemma_turn_usage_is_last_reported`
- `agent::lemma_round_history`, `agent::lemma_compaction_end`
- `llm::lemma_collect_contents`, `llm::lemma_collect_sorted`
- `provider::lemma_sse_chunking`
- `mcp::lemma_resolve_registered`
- `factory::lemma_provider_index_unique`
- `completions::lemma_slash_hints_are_prefix_matches`, `skills::lemma_find_skill_matches`
- `skill_index::lemma_merge_keeps_last`, `skill_index::lemma_merge_sorted`
- `session_list::lemma_session_list_contents`, `session_list::lemma_newest_first_sorted`

Calls into other crates (`rust_i18n`, `directories`, `serde_json`, `std::path`,
`String::from_utf8_lossy`) go through a few small trusted wrappers whose contracts
say what those functions are documented to do.

`app/` is the program around the library: command-line parsing, HTTP providers,
MCP processes, the asynchronous agent loop, the web server and file I/O. It hands
plain values to the library and acts on what comes back.

`tests/` runs the library on concrete inputs.
