# crosschat

The back end of a desktop AI chat and agent application: chat sessions with
OpenAI-compatible and Anthropic models, a tool-using agent that can read and
write files, run commands and call MCP servers, and the workspace file panel.

## Layout

- `src/` — the library, verified with Verus. It holds the decisions of the
  application: conversion of conversations to each model API and reading of
  their streamed and non-streamed replies (the JSON payloads of the streams,
  of the task split and of MCP answers are read here, field by field, through
  small `serde_json` wrappers), the agent's steps (tool routing,
  allow-lists, delegation to child agents, task decomposition, context
  compaction), the sandbox and sensitive-path rules for files, session and
  turn bookkeeping, MCP tool listings and results, and the messages shown to
  the user. Contracts state each function's result over mathematical models
  (`Seq`, `Map`, spec functions); proof functions named `law_*` state the
  properties that relate several functions.
- `tests/` — tests of the library on concrete values.
- `app/` — the code around it: SQLite storage, HTTP clients, MCP server
  processes, the file system, the key chain, the local HTTP API and the
  drivers that run the agent loops.
