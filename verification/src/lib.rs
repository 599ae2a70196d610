//! AtCHAT, a chat over simulated half-duplex radio: what its programs decide
//! and compute, apart from the sockets, the sound device and the window.
//!
//! * [`text`], [`ring`]: texts built from numbers, and bounded queues.
//! * [`colormap`], [`scope`], [`spectrum`], [`waterfall`], [`view`],
//!   [`panel`]: the monitor, from samples to pixels.
//! * [`chat`], [`events`], [`monitor`], [`station`]: what the logs and the
//!   chats show.
//! * [`engine`], [`engine_laws`], [`snapshot`]: the stations of a program and
//!   what each command makes them do.
//! * [`app`], [`labels`]: what the views show and command.
//!
//! Levels in decibels and fractions are in millionths, samples are 16-bit
//! numbers, and durations are whole hundredths of a second unless a name says
//! otherwise.

pub mod app;
pub mod chat;
pub mod colormap;
pub mod engine;
pub mod engine_laws;
pub mod events;
pub mod labels;
pub mod monitor;
pub mod panel;
mod random;
pub mod ring;
pub mod scope;
pub mod snapshot;
pub mod spectrum;
pub mod station;
pub mod text;
pub mod view;
pub mod waterfall;

pub use app::{AppConfig, Tab};
pub use colormap::Colormap;
pub use scope::ScopeBuf;
pub use spectrum::{db_to_unit, SpectrumAnalyzer, DB_FLOOR};
pub use waterfall::Waterfall;
