use arm_tui::emulator::assembler::LineMap;
use arm_tui::emulator::engine::Engine;
use arm_tui::emulator::registers::{reg_id, reg_name};
use arm_tui::emulator::state::{EmulatorState, EmulatorStatus, StackWord};
use arm_tui::ui::app::{key_action, App, Command, Event, KeyAction, KeyCode, KeyPress};
use arm_tui::emulator::messages::{refusal_message, unmapped_message};
use arm_tui::ui::widgets::code_panel::{CodePanel, CodePanelState};
use arm_tui::ui::widgets::status_bar::{
    error_line, help_text, status_label, status_tone, StatusBar, StatusTone,
};
use arm_tui::ui::widgets::register_panel::{RegisterPanel, RegisterRole};
use arm_tui::ui::widgets::stack_panel::{build_row, Annotation, Fade, RowMark, StackPanel};

fn app() -> App {
    let mut map = LineMap::new();
    map.record(0, 4);
    map.record(1, 4);
    let engine = Engine::new(map.finish(vec![0u8; 8])).ok().unwrap();
    let state = EmulatorState::new(vec!["a".to_string(), "b".to_string(), "c".to_string()], "x.s".to_string());
    App::new(state, engine)
}

fn key(c: char) -> Event {
    Event::Key(KeyPress { code: KeyCode::Char(c), plain: true })
}

#[test]
fn new_app_is_reset() {
    let a = app();
    assert_eq!(a.state.status, EmulatorStatus::Paused);
    assert_eq!(a.state.current_line, Some(0));
    assert_eq!(a.state.regs[15], 0x1000_0000);
    assert_eq!(a.code_panel_state.scroll, 0);
    assert!(!a.should_quit);
}

#[test]
fn key_bindings() {
    let shift_r = KeyPress { code: KeyCode::Char('R'), plain: false };
    let ctrl_r = KeyPress { code: KeyCode::Char('r'), plain: false };
    assert_eq!(key_action(KeyPress { code: KeyCode::Char('R'), plain: true }), KeyAction::Run);
    assert_eq!(key_action(shift_r), KeyAction::Reset);
    assert_eq!(key_action(ctrl_r), KeyAction::Ignore);
    assert_eq!(key_action(KeyPress { code: KeyCode::F(8), plain: true }), KeyAction::Step);
    assert_eq!(key_action(KeyPress { code: KeyCode::F(5), plain: true }), KeyAction::Ignore);
    assert_eq!(key_action(KeyPress { code: KeyCode::Char('Q'), plain: false }), KeyAction::Quit);
    assert_eq!(key_action(KeyPress { code: KeyCode::Up, plain: true }), KeyAction::ScrollUp);
    assert_eq!(key_action(KeyPress { code: KeyCode::Char('j'), plain: true }), KeyAction::ScrollDown);
    assert_eq!(key_action(KeyPress { code: KeyCode::Char('B'), plain: true }), KeyAction::Breakpoint);
    assert_eq!(key_action(KeyPress { code: KeyCode::Other, plain: true }), KeyAction::Ignore);
}

#[test]
fn step_and_run_are_asked_for_by_status() {
    let mut a = app();
    assert_eq!(a.handle_event(key('s')), Command::Step);
    assert_eq!(a.handle_event(key('r')), Command::Run);
    a.state.status = EmulatorStatus::Idle;
    assert_eq!(a.handle_event(key('s')), Command::Step);
    assert_eq!(a.handle_event(key('r')), Command::Nothing);
    a.state.status = EmulatorStatus::Finished;
    assert_eq!(a.handle_event(key('s')), Command::Nothing);
}

#[test]
fn quit_reset_breakpoint_and_scroll() {
    let mut a = app();
    a.handle_event(key('b'));
    assert!(a.state.breakpoints.contains(&0));
    a.handle_event(key('b'));
    assert!(a.state.breakpoints.is_empty());
    a.handle_event(key('k'));
    assert_eq!(a.code_panel_state.scroll, 0);
    a.handle_event(Event::Key(KeyPress { code: KeyCode::Down, plain: true }));
    a.handle_event(key('j'));
    assert_eq!(a.code_panel_state.scroll, 2);
    a.state.regs[0] = 5;
    a.state.status = EmulatorStatus::Error;
    assert_eq!(a.handle_event(Event::Key(KeyPress { code: KeyCode::Char('R'), plain: false })), Command::Nothing);
    assert_eq!(a.state.regs[0], 0);
    assert_eq!(a.state.status, EmulatorStatus::Paused);
    a.handle_event(key('x'));
    assert!(!a.should_quit);
    a.handle_event(key('q'));
    assert!(a.should_quit);
}

#[test]
fn tick_animates_the_stack() {
    let mut a = app();
    a.state.stack = vec![StackWord { addr: 4, bytes: [0; 4], in_use: false, fade_in: 0, fade_out: 1 }];
    assert_eq!(a.handle_event(Event::Tick), Command::Nothing);
    assert!(a.state.stack.is_empty());
}

#[test]
fn run_halts_at_breakpoints_and_when_not_paused() {
    let mut a = app();
    assert!(!a.run_halts());
    a.state.toggle_breakpoint(0);
    assert!(a.run_halts());
    a.state.toggle_breakpoint(0);
    a.state.status = EmulatorStatus::Finished;
    assert!(a.run_halts());
}

#[test]
fn ensure_visible_scrolls_to_the_line() {
    let mut p = CodePanelState::default();
    assert_eq!(p.scroll, 0);
    p.ensure_visible(Some(30), 12);
    assert_eq!(p.scroll, 21);
    assert!(p.scroll <= 30 && 30 < p.scroll + 10);
    p.ensure_visible(Some(25), 12);
    assert_eq!(p.scroll, 21);
    p.ensure_visible(Some(4), 12);
    assert_eq!(p.scroll, 4);
    p.ensure_visible(None, 12);
    assert_eq!(p.scroll, 4);
    p.ensure_visible(Some(9), 2);
    assert_eq!(p.scroll, 9);
}

#[test]
fn code_rows_mark_current_line_and_breakpoints() {
    let mut a = app();
    a.state.toggle_breakpoint(2);
    a.state.current_line = Some(1);
    let panel = CodePanel { state: &a.state };
    let rows = panel.rows(1, 10);
    assert_eq!(rows.len(), 2);
    assert_eq!((rows[0].index, rows[0].is_current, rows[0].is_breakpoint), (1, true, false));
    assert_eq!((rows[1].index, rows[1].is_current, rows[1].is_breakpoint), (2, false, true));
    assert_eq!(panel.rows(0, 3).len(), 1);
    assert_eq!(panel.rows(0, 1).len(), 0);
    assert_eq!(panel.rows(7, 10).len(), 0);
}

#[test]
fn register_rows_mark_sp_fp_and_changes() {
    let mut a = app();
    a.state.prev_regs = a.state.regs;
    a.state.regs[2] = 9;
    a.state.regs[11] = 1;
    a.state.cpsr = 0x8000_0000;
    let panel = RegisterPanel { state: &a.state };
    let rows = panel.rows();
    assert_eq!(rows.len(), 16);
    assert_eq!(rows[2].role, RegisterRole::Changed);
    assert!(rows[2].changed && rows[2].value == 9);
    assert_eq!(rows[11].role, RegisterRole::Fp);
    assert!(rows[11].changed);
    assert_eq!(rows[13].role, RegisterRole::Sp);
    assert!(!rows[13].changed);
    assert_eq!(rows[0].role, RegisterRole::Plain);
    assert!(panel.cpsr_changed());
    assert!(panel.flags().n);
}

#[test]
fn register_names_round_trip() {
    for i in 0..16 {
        assert_eq!(reg_id(reg_name(i)), i);
    }
    assert_eq!(reg_name(13), "sp");
    assert_eq!(reg_id("fp"), 11);
    assert_eq!(reg_id("r10"), 10);
    assert_eq!(reg_id("xyz"), 0);
}

#[test]
fn stack_rows() {
    let w = |addr: u32, bytes: [u8; 4], in_use: bool, fade_in: u8, fade_out: u8| StackWord { addr, bytes, in_use, fade_in, fade_out };
    let sp_row = build_row(&w(16, [1, 0, 0, 0], true, 3, 0), 16, 16);
    assert_eq!((sp_row.mark, sp_row.annotation, sp_row.fade, sp_row.bold), (RowMark::Sp, Annotation::Sp, Fade::In(3), true));
    let fp_row = build_row(&w(20, [0; 4], true, 0, 0), 16, 20);
    assert_eq!((fp_row.mark, fp_row.annotation, fp_row.fade), (RowMark::Fp, Annotation::Fp, Fade::Steady));
    let used = build_row(&w(24, [0, 1, 0, 0], true, 0, 0), 16, 20);
    assert_eq!((used.mark, used.annotation, used.value, used.bold), (RowMark::InUse, Annotation::Blank, 256, false));
    let zero = build_row(&w(8, [0; 4], false, 0, 2), 16, 20);
    assert_eq!((zero.mark, zero.annotation, zero.fade), (RowMark::Free, Annotation::Zero, Fade::Out(2)));
    let junk = build_row(&w(4, [0, 0, 0, 1], false, 0, 0), 16, 20);
    assert_eq!((junk.annotation, junk.value), (Annotation::Uninit, 0x0100_0000));

    let mut a = app();
    a.state.stack = vec![w(0x8FFF_FFFC, [0; 4], true, 0, 0), w(0x8FFF_FFF8, [0; 4], false, 0, 0)];
    a.state.regs[13] = 0x8FFF_FFFC;
    let panel = StackPanel { state: &a.state };
    let rows = panel.rows();
    assert_eq!(rows.len(), 2);
    assert_eq!(rows[0].mark, RowMark::Sp);
    assert_eq!(rows[1].annotation, Annotation::Zero);
}

#[test]
fn status_bar_texts() {
    assert_eq!(status_label(EmulatorStatus::Idle), "● 初始化");
    assert_eq!(status_label(EmulatorStatus::Paused), "‖ 已暂停");
    assert_eq!(status_label(EmulatorStatus::Running), "▶ 运行中");
    assert_eq!(status_label(EmulatorStatus::Finished), "✓ 完成");
    assert_eq!(status_label(EmulatorStatus::Error), "✗ 错误");
    assert_eq!(status_tone(EmulatorStatus::Paused), StatusTone::Waiting);
    assert_eq!(status_tone(EmulatorStatus::Error), StatusTone::Failed);
    assert_eq!(error_line(&None), "");
    assert_eq!(error_line(&Some("boom".to_string())), "  错误: boom");
    assert_eq!(help_text(), "  [s]单步  [r]运行  [b]断点  [R]重置  [q]退出");
    let mut s = EmulatorState::new(vec![], "x.s".to_string());
    s.status = EmulatorStatus::Error;
    s.error = Some("bad".to_string());
    let bar = StatusBar { state: &s };
    assert_eq!(bar.label(), "✗ 错误");
    assert_eq!(bar.tone(), StatusTone::Failed);
    assert_eq!(bar.error_part(), "  错误: bad");
}

#[test]
fn stop_messages() {
    assert_eq!(refusal_message("vadd"), "指令 'vadd' 不在允许列表中，执行已终止");
    assert_eq!(unmapped_message(0x1234), "访问未映射内存: 0x00001234");
    assert_eq!(unmapped_message(0xDEAD_BEEF), "访问未映射内存: 0xdeadbeef");
    assert_eq!(unmapped_message(0x1_0000_0000), "访问未映射内存: 0x100000000");
}

#[test]
fn code_panel_lines_carry_markers_and_numbers() {
    let lines: Vec<String> = (0..12).map(|i| format!("l{}", i)).collect();
    let mut s = EmulatorState::new(lines, "prog.s".to_string());
    s.current_line = Some(9);
    s.toggle_breakpoint(9);
    s.toggle_breakpoint(4);
    let panel = CodePanel { state: &s };
    assert_eq!(panel.title(), " prog.s ");
    let mut st = CodePanelState::default();
    let drawn = panel.lines(&mut st, 7);
    assert_eq!(st.scroll, 5);
    let idx: Vec<usize> = drawn.iter().map(|l| l.index).collect();
    assert_eq!(idx, vec![5, 6, 7, 8, 9]);
    assert_eq!(drawn[4].prefix(), "►  10 ● ");
    assert!(drawn[4].is_current && drawn[4].is_breakpoint);
    assert_eq!(drawn[0].prefix(), "    6   ");
    s.current_line = Some(0);
    let panel = CodePanel { state: &s };
    let drawn = panel.lines(&mut st, 7);
    assert_eq!(st.scroll, 0);
    assert_eq!(drawn[4].prefix(), "    5 ● ");
    assert_eq!(drawn[0].prefix(), "►   1   ");
}

#[test]
fn register_row_texts() {
    let mut s = EmulatorState::new(vec![], "r.s".to_string());
    s.regs[0] = 0xFFFF_FFFF;
    s.regs[10] = 0x1234_ABCD;
    s.regs[13] = 0x9000_0000;
    s.regs[15] = 7;
    let panel = RegisterPanel { state: &s };
    let rows = panel.rows();
    assert_eq!(rows[0].name_text, " r0: ");
    assert_eq!(rows[0].value_text, "0xFFFFFFFF");
    assert_eq!(rows[0].decimal_text, "          -1");
    assert_eq!(rows[10].name_text, "r10: ");
    assert_eq!(rows[10].value_text, "0x1234ABCD");
    assert_eq!(rows[10].decimal_text, "   305441741");
    assert_eq!(rows[13].name_text, " sp: ");
    assert_eq!(rows[13].value_text, "0x90000000");
    assert_eq!(rows[13].decimal_text, "  -1879048192");
    assert_eq!(rows[15].value_text, "0x00000007");
    assert_eq!(rows[15].decimal_text, "           7");
    assert_eq!(rows[1].decimal_text, "           0");
    s.regs[1] = 0x8000_0000;
    let panel = RegisterPanel { state: &s };
    assert_eq!(panel.rows()[1].decimal_text, "  -2147483648");
}

#[test]
fn cpsr_line_text() {
    let mut s = EmulatorState::new(vec![], "r.s".to_string());
    s.cpsr = 0x6000_0010;
    s.prev_cpsr = 0;
    let panel = RegisterPanel { state: &s };
    assert_eq!(panel.cpsr_text(), "CPSR: 0x60000010 N:0 Z:1 C:1 V:0");
    assert!(panel.cpsr_changed());
    s.prev_cpsr = 0x6000_0010;
    let panel = RegisterPanel { state: &s };
    assert_eq!(panel.cpsr_text(), "CPSR: 0x60000010 N:0 Z:1 C:1 V:0");
    assert!(!panel.cpsr_changed());
    s.cpsr = 0x9000_0000;
    let panel = RegisterPanel { state: &s };
    assert_eq!(panel.cpsr_text(), "CPSR: 0x90000000 N:1 Z:0 C:0 V:1");
}

#[test]
fn stack_row_texts() {
    let word = StackWord { addr: 0x8FFF_FFFC, bytes: [0x78, 0x56, 0x34, 0x12], in_use: true, fade_in: 0, fade_out: 0 };
    let row = build_row(&word, 0x8FFF_FFFC, 0);
    let mut texts = vec![row.addr_text.clone(), row.value_text.clone()];
    texts.extend(row.byte_texts.iter().cloned());
    texts.push(row.decimal_text.clone());
    texts.push(row.annotation_text.clone());
    assert_eq!(
        texts,
        vec!["0x8FFFFFFC  ", "0x12345678  ", "0x12    ", "0x34    ", "0x56    ", "0x78     ", " 305419896  ", "← SP"]
    );
    assert_eq!(row.mark, RowMark::Sp);
    assert!(row.bold);

    let free = StackWord { addr: 0x8FFF_FFF0, bytes: [0xFF, 0xFF, 0xFF, 0xFF], in_use: false, fade_in: 0, fade_out: 0 };
    let row = build_row(&free, 0x8FFF_FFFC, 0x8FFF_FFF8);
    assert_eq!(row.decimal_text, "        -1  ");
    assert_eq!(row.byte_texts[0], "0xFF    ");
    assert_eq!(row.annotation_text, "(uninit)");
    let zero = StackWord { addr: 0x8FFF_FFF8, bytes: [0; 4], in_use: false, fade_in: 0, fade_out: 0 };
    assert_eq!(build_row(&zero, 0x8FFF_FFFC, 0x8FFF_FFF8).annotation_text, "← FP");
    assert_eq!(build_row(&zero, 0x8FFF_FFFC, 0).annotation_text, "[zero]");
    let used = StackWord { addr: 0x8FFF_FFF4, bytes: [0; 4], in_use: true, fade_in: 0, fade_out: 0 };
    assert_eq!(build_row(&used, 0x8FFF_FFFC, 0).annotation_text, "");
}

#[test]
fn status_line_as_drawn() {
    let mut s = EmulatorState::new(vec![], "x.s".to_string());
    s.status = EmulatorStatus::Paused;
    let bar = StatusBar { state: &s };
    assert_eq!(bar.label_text(), " ‖ 已暂停 ");
    assert_eq!(bar.line(), " ‖ 已暂停   [s]单步  [r]运行  [b]断点  [R]重置  [q]退出");
    s.status = EmulatorStatus::Error;
    s.error = Some("oops".to_string());
    let bar = StatusBar { state: &s };
    assert_eq!(bar.line(), " ✗ 错误   错误: oops  [s]单步  [r]运行  [b]断点  [R]重置  [q]退出");
}

#[test]
fn code_line_parts() {
    let mut s = EmulatorState::new(vec!["a".to_string(), "b".to_string()], "p.s".to_string());
    s.current_line = Some(1);
    s.toggle_breakpoint(1);
    let panel = CodePanel { state: &s };
    let mut st = CodePanelState::default();
    let drawn = panel.lines(&mut st, 10);
    assert_eq!(drawn.len(), 2);
    assert_eq!((drawn[1].mark_text.as_str(), drawn[1].number_text.as_str(), drawn[1].breakpoint_text.as_str()), ("►", "   2 ", "● "));
    assert_eq!((drawn[0].mark_text.as_str(), drawn[0].number_text.as_str(), drawn[0].breakpoint_text.as_str()), (" ", "   1 ", "  "));
}
