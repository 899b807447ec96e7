//! A small verified virtual machine with two registers and a program counter.
//!
//! A program is an ordered sequence of textual instruction lines. The machine
//! repeatedly fetches the line at the current program counter, decodes it into
//! one of six instructions, applies its effect, and advances control flow.
//! The run halts when the program counter leaves the valid index range.

pub mod cpu;
pub mod decode;
pub mod rom;
