//! Message routing between a button, a serial link and a character display:
//! bounded byte pipes, line framing, command classification and the small
//! decision procedures that the firmware tasks run around them.

pub mod command;
pub mod display;
pub mod edge;
pub mod lcd;
pub mod led;
pub mod pipe;
pub mod serial;
pub mod text;
