# mcpfz-probe

Runtime probe sidecar for MCP server fuzzing, with its logic verified in Verus.

The sidecar reads newline-delimited JSON control messages (scope, begin and end
marks, shutdown) on stdin and writes newline-delimited JSON runtime events on
stdout, each in a `startup`, `call` or `ambient` bucket and attributed to the
call that was open. The `fake` backend replays a script; the `ebpf` backend
decodes what tracepoints capture.

## Layout

- `src/` is the verified library.
  - `cli`: the command line, failures and exit codes.
  - `control`: control messages and the lines that hold them.
  - `fake`, `replay`: the scripted backend, its script and its sessions, and a
    run of it on an input and an output that may fail.
  - `ebpf`: scope filtering, call attribution, deferred end marks and the order
    of the loop over the ring.
  - `events`, `wire`, `decode`, `addr`: kernel records, their layout, and the
    messages that they make.
  - `json`, `clock`, `text`: objects, timestamps and plain text.
  - `laws`: what holds of these together.
- `tests/` runs the library on concrete values.
- `app/` is the program around it: stdin and stdout, files, serde, aya, and the
  kernel side.

## What is trusted

The contracts of `serde_json::Map` and of the text of an object (`json`), of the
system clock (`clock`), of `core::str::from_utf8` and `u16::from_ne_bytes`
(`events`), and of `==` on string slices (`text`). Each is documented where it
stands. Timestamps and the byte order of the machine are left open: what depends
on them is stated for every value.
