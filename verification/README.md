# stylus_input_capture

Pen capture for graphics tablets, and an MPE instrument that is played with the
pen. The core is a library whose every function is proved against its contract
with Verus; around it stands an ordinary program that talks to devices, files,
sockets and the screen.

## Layout

| Path            | What it holds |
| --------------- | ------------- |
| `src/device`    | Samples, capabilities and errors that all parts share; normalization of an axis. |
| `src/rawinput`  | HID reports: capabilities, decoding, edges of tablet keys, the state of a capture. |
| `src/cli`       | Configuration, metrics and the queue between capture and stream. |
| `src/stream.rs` | Messages of the stream. |
| `src/consumer`  | The buffer of a reader and its policy for connecting anew. |
| `src/process`   | Calibration profiles: checks, stages, and what each stage does to a sample. |
| `src/midi`      | Scales, pads, mappings and the engine that turns readings into MPE events. |
| `src/hud`       | Actions, key bindings, ports, the pen guide and what the panels show. |
| `src/double.rs` | Comparison of IEEE numbers by their encoding. |
| `src/text.rs`   | Text that is checked or written. |
| `app`           | The capture server and the display. |
| `tests`         | Tests of the library on concrete values. |

## What is proved

Each public function states its result for every input, and functions named
after a sentence, such as `performances_make_sense` or
`display_buffers_keep_the_newest`, prove what holds across calls.

Three things are taken on trust: the ring buffer of `rtrb`, whose operations
are described in `src/cli/runtime.rs`; the key names of `egui`, described in
`src/hud/bindings.rs`; and the tools themselves.

Floating-point arithmetic stays in `app`. Where a decision depends on a
floating-point number, the library compares its encoding.

## Programs

```
stylus_input_capture --transport tcp            # capture server
stylus_input_capture hud --tcp 127.0.0.1:9123   # display
```

On Windows, capture works while another program has the focus, provided that
"Use Windows Ink" is on in the tablet's properties. Elsewhere a pen without
hardware draws one stroke.
