use arm_tui::emulator::registers::CpsrFlags;
use arm_tui::emulator::state::{EmulatorState, EmulatorStatus, StackWord};

fn word(addr: u32, in_use: bool, fade_in: u8, fade_out: u8) -> StackWord {
    StackWord { addr, bytes: [0, 0, 0, 0], in_use, fade_in, fade_out }
}

fn fresh() -> EmulatorState {
    EmulatorState::new(vec!["mov r0, #1".to_string()], "a.s".to_string())
}

#[test]
fn value_is_little_endian() {
    let w = StackWord { addr: 0x8FFF_FFFC, bytes: [0x78, 0x56, 0x34, 0x12], in_use: true, fade_in: 0, fade_out: 0 };
    assert_eq!(w.value_u32(), 0x1234_5678);
    let top = StackWord { addr: 0, bytes: [0xff, 0xff, 0xff, 0xff], in_use: false, fade_in: 0, fade_out: 0 };
    assert_eq!(top.value_u32(), u32::MAX);
    assert_eq!(word(0, false, 0, 0).value_u32(), 0);
}

#[test]
fn cpsr_flags_are_the_top_four_bits() {
    let f = CpsrFlags::from_cpsr(0xA000_0010);
    assert!(f.n && !f.z && f.c && !f.v);
    let g = CpsrFlags::from_cpsr(0x5000_0000);
    assert!(!g.n && g.z && !g.c && g.v);
    let h = CpsrFlags::from_cpsr(0x0FFF_FFFF);
    assert!(!h.n && !h.z && !h.c && !h.v);
}

#[test]
fn new_state_is_idle_and_zeroed() {
    let s = fresh();
    assert_eq!(s.regs, [0u32; 16]);
    assert_eq!(s.prev_regs, [0u32; 16]);
    assert_eq!(s.cpsr, 0);
    assert_eq!(s.current_line, None);
    assert!(s.stack.is_empty() && s.prev_stack.is_empty() && s.breakpoints.is_empty());
    assert_eq!(s.output_buffer, "");
    assert_eq!(s.status, EmulatorStatus::Idle);
    assert_eq!(s.error, None);
    assert_eq!(s.file_name, "a.s");
    assert_eq!(s.source_lines, vec!["mov r0, #1".to_string()]);
}

#[test]
fn register_shortcuts() {
    let mut s = fresh();
    s.regs[11] = 11;
    s.regs[13] = 13;
    s.regs[15] = 15;
    assert_eq!((s.fp(), s.sp(), s.pc()), (11, 13, 15));
}

#[test]
fn toggling_twice_restores_breakpoints() {
    let mut s = fresh();
    s.toggle_breakpoint(3);
    assert!(s.breakpoints.contains(&3));
    s.toggle_breakpoint(5);
    s.toggle_breakpoint(3);
    assert!(!s.breakpoints.contains(&3));
    assert!(s.breakpoints.contains(&5));
    assert_eq!(s.breakpoints.len(), 1);
}

#[test]
fn tick_counts_down_and_drops_finished_free_words() {
    let mut s = fresh();
    s.stack = vec![
        word(0x8FFF_FFFC, true, 8, 0),
        word(0x8FFF_FFF8, false, 0, 1),
        word(0x8FFF_FFF4, false, 0, 3),
        word(0x8FFF_FFF0, false, 0, 0),
        word(0x8FFF_FFEC, true, 0, 0),
    ];
    s.tick_animation();
    let addrs: Vec<u32> = s.stack.iter().map(|w| w.addr).collect();
    assert_eq!(addrs, vec![0x8FFF_FFFC, 0x8FFF_FFF4, 0x8FFF_FFEC]);
    assert_eq!(s.stack[0].fade_in, 7);
    assert_eq!(s.stack[1].fade_out, 2);
    assert_eq!(s.stack[2].fade_in, 0);
    for _ in 0..8 {
        s.tick_animation();
    }
    let addrs: Vec<u32> = s.stack.iter().map(|w| w.addr).collect();
    assert_eq!(addrs, vec![0x8FFF_FFFC, 0x8FFF_FFEC]);
    assert!(s.stack.iter().all(|w| w.fade_in == 0 && w.fade_out == 0));
}

#[test]
fn tick_keeps_words_in_use_and_order() {
    let mut s = fresh();
    s.stack = vec![word(0x8FFF_FFFC, true, 0, 0), word(0x8FFF_FFF8, true, 0, 0)];
    s.tick_animation();
    assert_eq!(s.stack.len(), 2);
    assert!(s.stack[0].addr > s.stack[1].addr);
}

#[test]
fn ticks_settle_after_the_largest_counter() {
    let mut s = fresh();
    s.stack = vec![
        word(0x8FFF_FFFC, true, 3, 0),
        word(0x8FFF_FFF8, false, 0, 2),
        word(0x8FFF_FFF4, true, 0, 1),
        word(0x8FFF_FFF0, false, 0, 0),
    ];
    for _ in 0..3 {
        s.tick_animation();
    }
    let settled: Vec<(u32, bool, u8, u8)> =
        s.stack.iter().map(|w| (w.addr, w.in_use, w.fade_in, w.fade_out)).collect();
    assert_eq!(settled, vec![(0x8FFF_FFFC, true, 0, 0), (0x8FFF_FFF4, true, 0, 0)]);
    s.tick_animation();
    let again: Vec<(u32, bool, u8, u8)> =
        s.stack.iter().map(|w| (w.addr, w.in_use, w.fade_in, w.fade_out)).collect();
    assert_eq!(again, settled);
}
