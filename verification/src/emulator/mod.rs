pub mod assembler;
pub mod disassembler;
pub mod engine;
pub mod error;
pub mod memory;
pub mod messages;
pub mod registers;
pub mod state;
pub mod whitelist;
pub mod syscall;
