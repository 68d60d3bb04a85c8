# integrity

A checker for marketing and interface text against seven hard constraints
(no preselection, no visual bias between options, stopping no harder than
starting, no hidden disadvantages, facts kept apart from opinions, no
ungrounded comparisons, no ungrounded urgency or scarcity). Every violation
is a hard fail.

The library under `src/` is written in Verus and verified:

- `text`, `sorting` — character-level text functions (trim, lines,
  substrings, decimal numbers) and stable ordering, with their models.
- `constraint`, `error`, `report` — the constraints, errors, and reports
  with their human-readable form.
- `pattern` — detection patterns, backed by the `regex` crate.
- `block`, `document` — splitting a plain text into blocks.
- `rule`, `rules/`, `checker` — the seven rules and the checker.
- `model`, `markdown`, `analysis`, `browser` — the Markdown page reader,
  its word-list analysis and the page browser's state.
- `cli`, `mcp` — the decisions of the command-line checker and of the MCP
  server.

`app/` holds the programs: the command-line checker (default), the MCP
server (`mcp`) and the page browser (`browser`).
