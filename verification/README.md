# animus-provider-opencode

The Animus provider for OpenCode: it turns agent run requests into OpenCode
sessions, drains the session's event stream into notifications and a run
response, and answers manifest and health queries.

The decisions are a verified library (`src/`):

- `json` — JSON documents as plain values, with their mathematical model.
- `config` — the provider configuration and its defaults.
- `request` — run requests, session plans, MCP endpoint extraction and the
  merge of extras with the runtime contract.
- `backend` — the provider: session plans, manifest and health.
- `drain` — the state machine that drains a session run, one event at a time,
  with the laws that relate the response to the events and to what was streamed.
- `session_id` — fallback session ids and their formatting.
- `errors` — how session failures reach the host.
- `manifest`, `health` — the types of those answers.
- `plugin` — the plugin entry point's decisions: the manifest flag, the
  plugin manifest document, and the harness settings.

`app/` holds the binary: the async plumbing against the session backend, the
notification sink, the clock and the environment, and the conversions between
the host protocol's types and the library's.
