# AtCHAT

AtCHAT is a chat over simulated half-duplex radio: stations share one channel,
and a passive monitor shows what is on the air. This crate holds what its
programs decide and compute, written in Rust and proved with
[Verus](https://github.com/verus-lang/verus).

| Part | What is proved |
| --- | --- |
| `src/ring.rs`, `src/text.rs` | bounded queues keep the newest items in order; texts built from numbers |
| `src/colormap.rs`, `src/scope.rs`, `src/spectrum.rs`, `src/waterfall.rs`, `src/view.rs`, `src/panel.rs` | the monitor, from samples to pixels |
| `src/chat.rs`, `src/events.rs`, `src/monitor.rs`, `src/station.rs` | the lines that logs and chats show |
| `src/engine.rs`, `src/engine_laws.rs`, `src/snapshot.rs` | the stations of a program and what each command makes them do |
| `src/app.rs`, `src/labels.rs` | what the views show and command |

The proofs hold of integers: levels in decibels and fractions are in
millionths, samples are 16-bit numbers, durations are parts of a second. The
Fourier transform and everything else that needs floating point is in `app/`,
with the window, the sound device, the TCP server and the engine thread. The
channel simulation, the modem and the station protocol are reached there
through the traits of `app/backend.rs`.

A few calls into other crates are trusted, not proved: upper case from the
standard library, the copy of a file path, random choices from `rand`, and JSON documents from
`serde_json`. Each stands in a small function whose comment says what is
claimed of it.
