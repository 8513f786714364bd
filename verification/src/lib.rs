//! A verified CHIP-8 virtual machine core.
//!
//! The library models the whole machine state — memory, registers, stack,
//! timers and the monochrome framebuffer — and executes one instruction per
//! tick against an exact specification of the instruction set.  The host
//! window, keyboard and clock stay outside; they hand the core a keypad
//! sample and receive the framebuffer to present.

pub mod cpu;
pub mod display;
pub mod laws;
pub mod memory;
pub mod state;
