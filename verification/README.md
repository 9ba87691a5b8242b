# agent-shell-tools

Tools to let coding agents access the shell with opinionated defaults, with
their decisions verified by Verus.

- **sandbox**: runs a command in an nsjail sandbox. The agent has full freedom
  inside, but cannot reach the host's home directory.
- **wsb**: starts a sandboxed grpc_execd for a workspace.
- **pktexec** and **pktexecd**: run a command on the host with the caller's
  stdio, over a `SOCK_SEQPACKET` Unix socket.

## Layout

The library in `src/` decides; it does no I/O. What alternates with I/O is a
state machine: it is told what happened and says what to do next.

| Module      | What it decides                                                  |
|-------------|------------------------------------------------------------------|
| `wire`      | The messages of pktexec and the packets that carry them           |
| `client`    | pktexec: arguments, and the session with the daemon               |
| `daemon`    | pktexecd: requests, signals, and the life of a connection         |
| `sandbox`   | What the sandbox mounts, and what it refuses to mount             |
| `workspace` | Where a workspace session keeps its files; stale sessions         |
| `search`    | Where the launcher finds the programs it starts                   |
| `launch`    | wsb: a launch from the command line to the exit code              |
| `status`    | How a process ended, as numbers                                   |
| `path`      | Unix paths as bytes: joining, components, parents                 |
| `text`      | Numbers and white space in text; bytes that may not be UTF-8      |

Each module ends with the laws that hold of it, as proof functions whose names
begin with `law_`. `app/` is the I/O around the library: one program that is the
tool by whose name it is called. Its sandbox needs nsjail's generated protobuf
types and its entry point `run_jail`, which a Bazel build provides.

## License

Apache-2.0
