//! Core of a terminal debugger for ARM32 assembly: the emulator state, the
//! stepping and stack-tracking rules, the source-line mapping, and the
//! decisions behind the terminal panels.

pub mod emulator;
pub mod text;
pub mod ui;
