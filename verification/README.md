# nimesvc

A small DSL for describing services (HTTP routes, gRPC methods, WebSocket
messages, events) and a tool that formats, checks, generates and runs
servers for them in Rust and Go.

The decisions and generators are a library verified with Verus:

- `src/ir.rs` — the project model.
- `src/format.rs` — the canonical text of a project (`nimesvc fmt`).
- `src/generators/` — the generated servers: the proto file, the Go and
  Rust HTTP servers, the Go and Rust gRPC servers, and the list of files
  each of these servers is made of (`files.rs`); `grpc/ts.rs` renders the
  parts of a TypeScript gRPC server (`package.json`, `tsconfig.json`,
  `src/index.ts`, middleware).
- `src/cli/` — what the commands decide: which servers to build (`plan`),
  how a service is prepared for generation (`prep`), the module check and
  file search of `doctor`, `lint`, `env`, the development loop's watch
  list and change detection (`dev`), stamps, pid files and package names
  (`runtime`), and which release asset `update` installs.
- `src/text.rs`, `src/paths.rs`, `src/sorted.rs` — text, Unix paths as
  `std::path::Path` reads them, and ordered sets and maps of names.

Every public function states its result exactly in its `ensures`; the
laws of the library (a snapshot reads back what was written to it, the
development loop restarts exactly when a watched file changed, module
files are always placed inside the generated sources, services get
folders of their own, generated lists are sorted sets) are public proof
functions.

`app/` is the command line around the library: argument parsing, files,
processes and the network. It reads projects as JSON documents of the
project model: `init` writes one, `fmt` rewrites one in canonical form and
prints the project in the DSL's canonical text. It writes Rust and Go
servers; it refuses TypeScript targets, whose types and event files the
library does not produce, and it has no OpenAPI output.
