# qatest

A QA test framework for Unity applications, with its logic verified by Verus.

Unity clients register their `[QaTest]` methods with a register server; web
consoles and the `qamcp` tool (a command line and an MCP server for AI agents)
find those methods, run them one by one or in sequences, stop them, and read
their results.

## Layout

- `src/` is the verified library.
  - `json.rs`, `json_text.rs`, `text.rs`, `keyed.rs`, `paths.rs`: JSON values,
    their text, strings, keyed collections and paths, with their models.
  - `urls.rs`, `digest.rs`: the calls into `url` and `sha2`, behind contracts.
  - `config.rs`, `cli/`, `qa/`, `mcp.rs`, `mcp_tools.rs`: qamcp — its
    configuration, command line (options, plans, help, text output), what it
    asks of the server and how it reads the answers, and its MCP messages.
  - `server/`: the register server's state and every operation on it
    (registration, locks, executions, sequences, stops, heartbeats, artifacts,
    authentication, configuration, the rows of the execution archive), each
    keeping the state's invariant, and `server/laws.rs`, the properties that
    relate several operations.
  - `network.rs`: which remote addresses an access scope admits.
- `tests/`: tests of the library on concrete values.
- `app/`: the program around the library — process start, files, HTTP,
  WebSockets, timers, the MCP stdio loop, structured logs and the writer of
  the MariaDB/MySQL execution archive. `qamcp <command>` runs a
  command, `qamcp mcp` serves MCP, `qamcp register-server` runs the server.
