use arm_tui::emulator::assembler::{AssembledProgram, LineMap};
use arm_tui::emulator::engine::{stack_window_addr, words_to_restore, Engine, StepOutcome};
use arm_tui::emulator::memory::{CODE_BASE, STACK_DISPLAY_WORDS, STACK_TOP};
use arm_tui::emulator::state::{EmulatorState, EmulatorStatus, MemStore, StackWord};

/// Three 4-byte instructions on lines 1, 2 and 4.
fn program() -> AssembledProgram {
    let mut map = LineMap::new();
    map.record(1, 4);
    map.record(2, 4);
    map.record(3, 0);
    map.record(4, 4);
    map.finish(vec![0u8; 12])
}

fn engine() -> Engine {
    Engine::new(program()).ok().unwrap()
}

fn state() -> EmulatorState {
    EmulatorState::new(vec![String::new(); 5], "t.s".to_string())
}

fn reads(fill: u8) -> Vec<Option<[u8; 4]>> {
    vec![Some([fill, 0, 0, 0]); STACK_DISPLAY_WORDS]
}

fn outcome(regs: [u32; 16], output: &str) -> StepOutcome {
    StepOutcome {
        error: None,
        regs,
        cpsr: 0x6000_0000,
        output: output.to_string(),
        exited: false,
        stores: Vec::new(),
        stack_reads: reads(1),
    }
}

#[test]
fn reset_puts_pc_at_code_base_and_sp_at_stack_top() {
    let e = engine();
    let mut s = state();
    s.toggle_breakpoint(2);
    s.output_buffer.push_str("old");
    s.status = EmulatorStatus::Error;
    s.error = Some("x".to_string());
    e.reset(&mut s);
    assert_eq!(s.regs[13], 0x9000_0000);
    assert_eq!(s.regs[15], 0x1000_0000);
    assert_eq!(s.regs.iter().filter(|r| **r != 0).count(), 2);
    assert_eq!(s.prev_regs, s.regs);
    assert_eq!(s.current_line, Some(1));
    assert_eq!(s.status, EmulatorStatus::Paused);
    assert_eq!(s.error, None);
    assert_eq!(s.output_buffer, "");
    assert!(s.breakpoints.contains(&2));
    assert_eq!(STACK_TOP, 0x9000_0000);
}

#[test]
fn finished_or_failed_state_does_not_step() {
    let e = engine();
    let mut s = state();
    e.reset(&mut s);
    s.status = EmulatorStatus::Finished;
    assert!(!e.begin_step(&mut s));
    assert_eq!(s.status, EmulatorStatus::Finished);
    s.status = EmulatorStatus::Error;
    assert!(!e.begin_step(&mut s));
    assert_eq!(s.status, EmulatorStatus::Error);
}

#[test]
fn pc_outside_code_finishes() {
    let e = engine();
    let mut s = state();
    e.reset(&mut s);
    s.regs[15] = 0x1000_000C;
    assert!(!e.begin_step(&mut s));
    assert_eq!(s.status, EmulatorStatus::Finished);
    s.status = EmulatorStatus::Paused;
    s.regs[15] = 0x0FFF_FFFC;
    assert!(!e.begin_step(&mut s));
    assert_eq!(s.status, EmulatorStatus::Finished);
}

#[test]
fn begin_step_saves_history() {
    let e = engine();
    let mut s = state();
    e.reset(&mut s);
    s.regs[0] = 7;
    s.cpsr = 0x2000_0000;
    assert!(e.begin_step(&mut s));
    assert_eq!(s.prev_regs[0], 7);
    assert_eq!(s.prev_cpsr, 0x2000_0000);
}

#[test]
fn finish_step_takes_over_registers_output_and_line() {
    let e = engine();
    let mut s = state();
    e.reset(&mut s);
    s.status = EmulatorStatus::Idle;
    s.output_buffer.push_str("Hi");
    assert!(e.begin_step(&mut s));
    let mut regs = [0u32; 16];
    regs[13] = 0x8FFF_FFF8;
    regs[15] = 0x1000_0004;
    e.finish_step(&mut s, outcome(regs, "!\n"));
    assert_eq!(s.regs, regs);
    assert_eq!(s.cpsr, 0x6000_0000);
    assert_eq!(s.output_buffer, "Hi!\n");
    assert_eq!(s.current_line, Some(2));
    assert_eq!(s.status, EmulatorStatus::Paused);
    assert_eq!(s.stack.len(), 32);
    assert_eq!(s.stack[0].addr, 0x8FFF_FFFC);
    assert_eq!(s.stack[31].addr, 0x8FFF_FF80);
    assert!(s.stack[0].in_use && s.stack[1].in_use && !s.stack[2].in_use);
    assert_eq!((s.stack[0].fade_in, s.stack[1].fade_in, s.stack[2].fade_in), (8, 8, 0));
    assert_eq!(s.stack[5].value_u32(), 1);
}

#[test]
fn unknown_pc_has_no_line() {
    let e = engine();
    let mut s = state();
    e.reset(&mut s);
    assert!(e.begin_step(&mut s));
    let mut regs = [0u32; 16];
    regs[13] = 0x9000_0000;
    regs[15] = 0x1000_000C;
    e.finish_step(&mut s, outcome(regs, ""));
    assert_eq!(s.current_line, None);
}

#[test]
fn step_error_stops_the_run() {
    let e = engine();
    let mut s = state();
    e.reset(&mut s);
    assert!(e.begin_step(&mut s));
    let before = s.regs;
    let failed = StepOutcome {
        error: Some("refused".to_string()),
        regs: [9u32; 16],
        cpsr: 1,
        output: "lost".to_string(),
        exited: true,
        stores: vec![MemStore { addr: 0x2000_0000, size: 4, value: 7 }],
        stack_reads: reads(0),
    };
    e.finish_step(&mut s, failed);
    assert_eq!(s.status, EmulatorStatus::Error);
    assert_eq!(s.error, Some("refused".to_string()));
    assert_eq!(s.regs, before);
    assert_eq!(s.output_buffer, "");
    assert!(s.memory.is_empty());
    assert!(!e.begin_step(&mut s));
}

#[test]
fn pop_fades_out_and_counters_count_down() {
    let e = engine();
    let mut s = state();
    e.reset(&mut s);
    s.regs[13] = 0x8FFF_FFF8;
    e.update_stack(&mut s, &reads(0));
    s.prev_stack = s.stack.clone();
    s.regs[13] = 0x8FFF_FFFC;
    let mut r = reads(0);
    r[3] = None;
    e.update_stack(&mut s, &r);
    assert!(s.stack[0].in_use);
    assert_eq!((s.stack[0].fade_in, s.stack[0].fade_out), (7, 0));
    assert!(!s.stack[1].in_use);
    assert_eq!((s.stack[1].fade_in, s.stack[1].fade_out), (0, 8));
    assert_eq!((s.stack[2].fade_in, s.stack[2].fade_out), (0, 0));
    assert_eq!(s.stack[3].bytes, [0, 0, 0, 0]);
}

#[test]
fn push_onto_a_dropped_word_fades_in() {
    let e = engine();
    let mut s = state();
    e.reset(&mut s);
    s.regs[13] = 0x9000_0000;
    e.update_stack(&mut s, &reads(0));
    for _ in 0..2 {
        s.tick_animation();
    }
    assert!(s.stack.is_empty());
    s.prev_stack = s.stack.clone();
    s.regs[13] = 0x8FFF_FFFC;
    e.update_stack(&mut s, &reads(0));
    assert_eq!(s.stack[0].fade_in, 8);
}

#[test]
fn stack_window_addresses() {
    assert_eq!(stack_window_addr(0), 0x8FFF_FFFC);
    assert_eq!(stack_window_addr(31), 0x8FFF_FF80);
}

#[test]
fn only_words_in_use_are_restored() {
    let mut s = state();
    s.stack = vec![
        StackWord { addr: 8, bytes: [1, 2, 3, 4], in_use: true, fade_in: 0, fade_out: 0 },
        StackWord { addr: 4, bytes: [0; 4], in_use: false, fade_in: 0, fade_out: 3 },
        StackWord { addr: 0, bytes: [5, 0, 0, 0], in_use: true, fade_in: 0, fade_out: 0 },
    ];
    let w = words_to_restore(&s);
    assert_eq!(w.len(), 2);
    assert_eq!((w[0].addr, w[1].addr), (8, 0));
}

#[test]
fn engine_exposes_its_program() {
    let e = engine();
    assert_eq!(e.assembled().base_addr as u64, CODE_BASE);
    assert_eq!(e.assembled().code.len(), 12);
}

#[test]
fn program_without_code_finishes_after_reset() {
    let e = Engine::new(LineMap::new().finish(Vec::new())).ok().unwrap();
    let mut s = state();
    e.reset(&mut s);
    assert_eq!(s.current_line, None);
    assert!(!e.begin_step(&mut s));
    assert_eq!(s.status, EmulatorStatus::Finished);
}

#[test]
fn counters_stay_within_eight() {
    let e = engine();
    let mut s = state();
    e.reset(&mut s);
    for sp in [0x8FFF_FFF0u32, 0x9000_0000, 0x8FFF_FFE0, 0x8FFF_FFFC] {
        s.prev_stack = s.stack.clone();
        s.regs[13] = sp;
        e.update_stack(&mut s, &reads(0));
        s.tick_animation();
        assert!(s.stack.iter().all(|w| w.fade_in <= 8 && w.fade_out <= 8));
        assert!(s.stack.windows(2).all(|p| p[0].addr > p[1].addr));
    }
}

#[test]
fn exit_call_finishes_the_run() {
    let e = engine();
    let mut s = state();
    e.reset(&mut s);
    assert!(e.begin_step(&mut s));
    let mut regs = s.regs;
    regs[7] = 1;
    regs[15] = 0x1000_0004;
    let mut exit = outcome(regs, "");
    exit.exited = true;
    e.finish_step(&mut s, exit);
    assert_eq!(s.status, EmulatorStatus::Finished);
    assert_eq!(s.regs[15], 0x1000_0004);
    let before = s.regs;
    assert!(!e.begin_step(&mut s));
    assert_eq!(s.regs, before);
    assert_eq!(s.status, EmulatorStatus::Finished);
}

#[test]
fn stores_carry_over_little_endian() {
    let e = engine();
    let mut s = state();
    e.reset(&mut s);
    assert!(e.begin_step(&mut s));
    let mut regs = s.regs;
    regs[15] = 0x1000_0004;
    let mut o = outcome(regs, "");
    o.stores = vec![
        MemStore { addr: 0x2000_0000, size: 4, value: 0x1234_5678 },
        MemStore { addr: 0x2000_0001, size: 1, value: 0xAB },
    ];
    e.finish_step(&mut s, o);
    assert_eq!(s.status, EmulatorStatus::Paused);
    assert_eq!(s.memory.len(), 4);
    assert_eq!(s.memory.get(&0x2000_0000), Some(&0x78));
    assert_eq!(s.memory.get(&0x2000_0001), Some(&0xAB));
    assert_eq!(s.memory.get(&0x2000_0002), Some(&0x34));
    assert_eq!(s.memory.get(&0x2000_0003), Some(&0x12));

    assert!(e.begin_step(&mut s));
    let mut regs = s.regs;
    regs[15] = 0x1000_0008;
    e.finish_step(&mut s, outcome(regs, ""));
    assert_eq!(s.memory.get(&0x2000_0003), Some(&0x12));
    assert_eq!(s.memory.len(), 4);

    e.reset(&mut s);
    assert!(s.memory.is_empty());
}

#[test]
fn cloned_state_is_equal() {
    let e = engine();
    let mut s = state();
    e.reset(&mut s);
    s.toggle_breakpoint(3);
    s.memory.insert(0x2000_0000, 9);
    s.output_buffer.push_str("hi");
    s.error = Some("e".to_string());
    let c = s.clone();
    assert_eq!(c.regs, s.regs);
    assert_eq!(c.breakpoints, s.breakpoints);
    assert_eq!(c.memory, s.memory);
    assert_eq!(c.output_buffer, "hi");
    assert_eq!(c.error, Some("e".to_string()));
    assert_eq!(c.source_lines, s.source_lines);
    assert_eq!(c.file_name, "t.s");
    assert_eq!(c.status, s.status);
    assert_eq!(c.stack.len(), s.stack.len());
}
