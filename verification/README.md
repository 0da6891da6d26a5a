# cstream

The server side of a Wayland desktop streamed over WebRTC, with its decisions verified by Verus.

- `src/` is the library. It holds what the streamer and the session leader decide: which encoder
  carries a stream, which graph is put together, which size a resize lands on, what a control
  command is answered, when the desktop is locked, in which order privilege is dropped. Each
  function states what it returns, and the public proof functions named `law_...` state what holds
  across them.
- `app/` is the program around it: GStreamer, sockets, files, the environment and system calls.
- `tests/` runs the library on concrete values.

The library takes the outcome of outside work as plain values. A graph is a plan of steps that the
program carries out and reports on; a run of the streamer, the proof of an encoder, an armed lock
and a drop of privilege are state machines that say which call comes next.

One thing is taken on trust: that the standard library's `{:?}` form of a text depends on that text
alone, and holds no newline (`text::debug_quoted`).
