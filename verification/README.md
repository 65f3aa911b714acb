# arm_tui

A terminal debugger for 32-bit ARM assembly: step through a program one
instruction at a time, watch the registers and the stack, set breakpoints.

- `src/` is the verified library (Verus):
  - `emulator/` — the emulator state and its stack snapshot, the stepping
    rules (`engine`), the mapping from machine-code addresses to source lines
    (`assembler`), the disassembler, the system-call and instruction-whitelist
    decisions, the stop messages, the CPSR flags and register names, the
    memory layout, and the bytes stored so far, which carry over from one
    step to the next;
  - `ui/` — the key bindings and event handling (`app`) and what each panel
    and the status line show (`widgets`);
  - `text.rs` — whitespace trimming, searching and number formatting on
    strings.
- `app/` is the program around it: command line, the Keystone assembler, the
  Unicorn emulator, and the terminal drawing (code, registers, stack, the
  OUTPUT of `sys_write`, and the status line).
- `tests/` exercises the library.

Memory layout: code at `0x1000_0000`, data at `0x2000_0000`, stack from
`0x8C00_0000` up to `0x9000_0000`, where SP starts.
