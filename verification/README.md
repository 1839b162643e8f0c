# Symposium

An orchestration service for coding agents. It polls issue trackers (Notion and
Sentry, through MCP servers), gives each eligible issue a workspace of its own,
runs an agent in it, opens a draft pull request, and works on the feedback that
the pull request gets.

- `src/` is the library: every decision the service makes, with contracts that
  Verus proves. It touches no file, process, socket or clock.
- `app/` is the service around it: the command line, the HTTP server, child
  processes, files and connections. It carries out what the library decides.
- `tests/` runs the library on concrete values.

## Workflow files

A workflow is a `WORKFLOW.md` file with YAML front matter and a prompt template:

```yaml
---
tracker:
  database_id: "your-database-id"
  active_states: ["Todo", "In Progress"]
codex:
  command: "/usr/local/bin/agent"
workspace:
  root: "~/symposium_workspaces"
---
You are working on issue {{ issue.identifier }}: {{ issue.title }}.
```

`codex.command` names the agent that is run; where a workflow file leaves it out,
the environment variable `SYMPOSIUM_AGENT_COMMAND` does.

Templates are Liquid. One on which rendering could break off (a whole number
beyond 64 bits, arithmetic that could overflow with the data at hand, a table
without columns and the like) is refused with an error; `src/steady.rs` says
exactly which.

## HTTP API

| Endpoint | Method | Description |
|----------|--------|-------------|
| `/` | GET | HTML dashboard with auto-refresh |
| `/api/v1/state` | GET | Full state as JSON |
| `/api/v1/issues/{id}` | GET | Detail for a single running issue |
| `/api/v1/refresh` | POST | Trigger an immediate poll cycle |
