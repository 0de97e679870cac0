//! A minimal platform layer for a software-rendered application.
//!
//! The crate owns an off-screen pixel buffer ([`buffer`]), stretches it onto a
//! destination surface ([`blit`]), drives a window through a pure notification
//! state machine ([`machine`]), coordinates one iteration of the main loop
//! ([`pump`]), and polls a fixed number of controller slots ([`input`]).
//! Everything that talks to the operating system stays outside this crate;
//! the functions here work on plain values and carry proved contracts.

pub mod blit;
pub mod buffer;
pub mod input;
pub mod machine;
pub mod pump;
