//! A terminal front-end for an external UI rendering engine: the verified
//! core that schedules engine tasks, turns pixel buffers into terminal
//! output, keeps the accessibility tree and translates terminal input.

pub mod pixel;
pub mod terminal;
pub mod tasks;
pub mod transform;
pub mod semantics;
pub mod viewport;
pub mod kitty;
pub mod log_window;
pub mod event;
pub mod text_input;
