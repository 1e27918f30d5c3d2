# tower_cli

The host side of the HARDWARIO TOWER console link, with its logic verified by Verus: a console,
a shell and streaming commands for one device, and a gateway that bridges a radio network to
MQTT, with a dashboard and client commands.

- `src/` is the library. It computes only: frames, keys, ticks and messages come in as plain
  values; what is to be sent, written or drawn goes out as plain values. Every function states
  what it returns or changes. `engine_model.rs` says what the gateway engine does as a function
  of its state and its input; `engine_laws.rs`, `engine_answer_laws.rs`, `engine_dialog_laws.rs`
  and `engine_queue_laws.rs` prove what holds of it, such as that every request is answered
  exactly once.
- `tests/` runs the library on concrete values.
- `app/` is the `tower` program around it: arguments, serial ports, threads, the broker and the
  terminal.

What is believed without proof is marked `#[verifier::external_body]` and says in its doc
comment which outside function it calls and what is claimed of it.

The wire codec (`tower-protocol`) and the bootloader engine (`jolt`) are crates of HARDWARIO's
own; `app/codec.rs` and `app/flash.rs` are the only places that name them.

## Exit codes

| Code | Meaning |
|------|---------|
| 0 | success |
| 1 | tool error, or an answer that misses a piece |
| 2 | usage error |
| 124 | no answer of the device, or of the gateway |
| 125 | protocol version mismatch |
| 126 | firmware for another role |
| 1 to 123 | `exec`: the result of the device |
