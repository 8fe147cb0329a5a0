# Coreplay

Small tasks run next to each other on one core. Each task is a wasm program with a `main` function
and some functions through which its host talks to it. A task does not own the stack it runs on: when
the host raises the yield signal, the task returns, and when it is scheduled again it goes on where
it stopped.

A task reaches the outside through the functions of its host:

- `next_message`: the next message for the task, if there is one.
- `send_message`: sends a message to the other task.
- `call_task`: calls another task and waits for its answer.
- `should_yield`: whether the task is to give control back.
- `print`: prints a line.

The program that runs the tasks and the task itself are built from the same source: the one for the
machine it runs on, the other for `wasm32-unknown-unknown`. The program loads the wasm file that its
first argument names. Without an argument it loads
`target/wasm32-unknown-unknown/release/coreplay.wasm`, where the release build for wasm puts it.

## Layout

- `src/` is the library, verified with Verus: the wire format, what both sides do with the bytes and
  pointers that cross the boundary, what a task does in its service cycle, and how the host creates tasks,
  schedules them, passes their messages on and has their calls answered.
- `app/` is the ordinary Rust around it: `node.rs` runs tasks with `wasmtime`, `guest.rs` is the task
  that is compiled to wasm.
- `tests/` holds the tests of the library.

The library trusts `parity_scale_codec` to encode and decode integers, byte arrays and the marker of
a `Result`, and the standard library to tell valid UTF-8. What the library itself does
is proved.
