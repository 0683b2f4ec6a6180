//! Emulation of a projector that speaks an ESC/VP21-style line protocol:
//! a framing codec, a table of parameters with validated writes, a power-state
//! machine with timed warm-up and cool-down, and the dispatcher that joins them.

pub mod codec;
pub mod commands;
pub mod epsonlib;
pub mod escvp21;
pub mod param;
pub mod power;
pub mod request;
mod text;
