# wickeban_core

The decision logic of the Wickeban task orchestration service, written in
Verus: every function in `src/` carries a contract that Verus proves.

- `src/text.rs`, `src/compose.rs`: UTF-8 text handling (trimming, lines,
  byte-capped cuts, JSON payload extraction), stated over `s@` and, where bytes
  matter, over `s.spec_bytes()`.
- `src/transcript.rs`, `src/interview.rs`, `src/herd.rs`: reading what agents
  and tools print.
- `src/prompts.rs`: the prompts handed to agents, each stated as a spec function.
- `src/assessment.rs`, `src/ranking.rs`, `src/recovery.rs`: complexity routing,
  synthesis of ranking reports, recovery after context limits, error summaries.
- `src/execution.rs`, `src/ralph.rs`, `src/swarm.rs`, `src/planning.rs`,
  `src/container.rs`, `src/approvals.rs`: the services' decisions, written as
  step functions from an event to the next action.
- `src/paths.rs`: the rules that keep workspace cleanup away from user
  directories, with their laws.
- `src/mcp.rs`, `src/tags.rs`, `src/requests.rs`: the tool server's and the
  request handlers' checks and derived values.
- `src/status.rs`, `src/naming.rs`, `src/ids.rs`: enumerations with their
  stored names, and derived names.

Calls into `regex`, `serde_json`, `uuid` and std's `Path` and `to_lowercase`
stand behind small trusted wrappers whose contracts name or state their results.

`app/` holds what Verus does not check: serde copies of the library's types,
running agent, git and Herd processes, the usage cache file, and the
floating-point thresholds. `tests/` exercises the library through its public
functions.
