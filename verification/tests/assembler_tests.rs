use arm_tui::emulator::assembler::{instruction_text, LineMap};

#[test]
fn instruction_lines_are_trimmed() {
    assert_eq!(instruction_text("    mov r0, #1          "), Some("mov r0, #1"));
    assert_eq!(instruction_text("\tsvc #0\r"), Some("svc #0"));
    assert_eq!(instruction_text("mov r0, #1 @ fd = stdout"), Some("mov r0, #1 @ fd = stdout"));
}

#[test]
fn empty_comment_and_directive_lines_are_skipped() {
    for line in [
        "", "   ", "@ print", "// note", ".global main", ".globl main", ".data", ".text",
        ".syntax unified", ".arch armv7-a", ".cpu cortex-a8", ".thumb", ".arm", ".section .rodata",
        ".equ N, 4", ".set N, 4", ".align 2", ".word 5", ".byte 1", ".space 8", ".string \"a\"",
        ".ascii \"Hello!\\n\"", ".end",
    ] {
        assert_eq!(instruction_text(line), None, "{line:?}");
    }
}

#[test]
fn labels() {
    assert_eq!(instruction_text("main:"), None);
    assert_eq!(instruction_text(".L1:"), None);
    assert_eq!(instruction_text("  loop:  "), None);
    assert_eq!(instruction_text("loop: add r1, r1, #1"), Some("add r1, r1, #1"));
    assert_eq!(instruction_text("loop:    "), None);
    assert_eq!(instruction_text("a b:"), None);
    assert_eq!(instruction_text("msg: .ascii \"Hi\""), Some(".ascii \"Hi\""));
    assert_eq!(instruction_text("x:\u{3000}bx lr\u{00A0}"), Some("bx lr"));
}

#[test]
fn line_map_places_lines_one_after_another() {
    let mut m = LineMap::new();
    assert_eq!(m.cursor(), 0x1000_0000);
    m.record(2, 4);
    m.record(3, 0);
    m.record(5, 8);
    assert_eq!(m.cursor(), 0x1000_000C);
    let p = m.finish(vec![1, 2, 3]);
    assert_eq!(p.base_addr, 0x1000_0000);
    assert_eq!(p.code, vec![1, 2, 3]);
    assert_eq!(p.addr_to_line.len(), 2);
    assert_eq!(p.addr_to_line.get(&0x1000_0000), Some(&2));
    assert_eq!(p.addr_to_line.get(&0x1000_0004), Some(&5));
}
