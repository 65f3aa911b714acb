use vstd::prelude::*;

verus! {

/// Start of the code segment.
pub const CODE_BASE: u64 = 0x1000_0000;

/// Size of the code segment (4 MB).
pub const CODE_SIZE: u64 = 0x40_0000;

/// Start of the data segment.
pub const DATA_BASE: u64 = 0x2000_0000;

/// Size of the data segment (4 MB).
pub const DATA_SIZE: u64 = 0x40_0000;

/// Low end of the stack segment.
pub const STACK_BASE: u64 = 0x8C00_0000;

/// Size of the stack segment: 0x8C00_0000 up to 0x9000_0000.
pub const STACK_SIZE: u64 = 0x400_0000;

/// Initial SP (0x9000_0000): the top of the stack segment; the stack grows down.
pub const STACK_TOP: u64 = STACK_BASE + STACK_SIZE;

/// Number of words below the stack top that the stack panel shows.
pub const STACK_DISPLAY_WORDS: usize = 32;

} // verus!
