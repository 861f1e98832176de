# b10x-mcp

A tools-only client for the Model Context Protocol over stdio and Streamable HTTP, with OAuth and
a strict registry of named connections. What the client decides is a Verus library; what it reads,
sends and prints is ordinary Rust around it.

| Directory | What it holds |
| --- | --- |
| `src/` | The library. Every function states in its contract what it returns for every input, and Verus proves it. |
| `tests/` | The library at work, with the outside crates linked. |
| `app/` | The `b10x-mcp` executable: argument parsing, files, processes, sockets and the MCP SDK. |

## What the library decides

- `tools`, `connection`, `frames`: descriptors, results and messages are kept whole or refused by
  the name of their bound. A listing is frozen into a snapshot with a digest, and only what the
  snapshot lists can be called. Annotations are retained and never interpreted.
- `client`, `endpoint`, `headers`, `challenge`: where a transport may go, what it may carry, and
  what is reported of a failure. Cleartext stays on loopback, `authorization` is never a declared
  header, and nothing that a server said is reported but a scope.
- `oauth`, `exchange`, `callback`, `custody`, `paths`: authorization plans, buffered exchanges, the
  loopback callback, and owner-only documents that are replaced atomically and bound to their
  resource.
- `registry`, `schema`, `registry_digest`, `bearer`: the registry document, which names the sources
  of credentials and has no place for a value, and the digest over its canonical form.
- `command`: what each command selects and prints.
- `controlled`, `testkit`: a server with fixed answers and synthetic values for conformance tests.
- `laws`, `custody_laws`, `registry_laws`: what holds across functions.

`outside` holds every call into another crate, each with the contract that the proofs rest on.

## Registry

The default registry is `$XDG_CONFIG_HOME/b10x/mcp.toml`, or the same path below `.config` in
`HOME`. OAuth documents are kept under `$XDG_STATE_HOME/b10x/mcp`.

```toml
[connections.local_files]
transport = "stdio"
program = "/absolute/path/to/mcp-server"
args = ["--stdio"]
cwd = "/absolute/working/directory"
inherit-env = []

[connections.remote]
transport = "http"
url = "https://mcp.example.com/mcp"

[connections.remote.auth]
kind = "oauth"
resource-url = "https://mcp.example.com/mcp"
redirect-uri = "http://127.0.0.1:38123/callback"
client-name = "b10x MCP client"
scopes = []
application-type = "native"
```

A bearer token comes from a named environment variable (`kind = "bearer"`, `source =
"environment"`, `environment = "NAME"`) or from a JSON file (`source = "json-file"`, `path`,
`pointer`).
