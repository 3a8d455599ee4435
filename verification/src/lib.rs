//! A verified interpreter core for a fixed 8-bit virtual machine with 35
//! instructions, a 4 KiB address space, 16 registers, a 16-level call stack,
//! two countdown timers, a 64x32 monochrome display and a 16-key keypad.

pub mod ast;
pub mod cpu;
pub mod display;
pub mod keyboard;
pub mod wave;
