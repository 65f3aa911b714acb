use arm_tui::emulator::syscall::{append_written, swi_action, SyscallAction};
use arm_tui::emulator::whitelist::{refused_mnemonic, whitelist_from_ids};

#[test]
fn syscall_numbers() {
    assert_eq!(swi_action(4, 0x2000_0000, 7), SyscallAction::Write { buf: 0x2000_0000, count: 7 });
    assert_eq!(swi_action(1, 0, 0), SyscallAction::Exit);
    assert_eq!(swi_action(248, 0, 0), SyscallAction::Exit);
    assert_eq!(swi_action(3, 0, 0), SyscallAction::Ignore);
}

#[test]
fn written_text_is_appended_when_valid_utf8() {
    let mut out = String::from("a");
    append_written(&mut out, b"Hello!\n");
    assert_eq!(out, "aHello!\n");
    append_written(&mut out, &[0xff, 0xfe]);
    assert_eq!(out, "aHello!\n");
    append_written(&mut out, "é".as_bytes());
    assert_eq!(out, "aHello!\né");
}

#[test]
fn whitelist_refuses_unknown_ids() {
    let wl = whitelist_from_ids(&[106, 2, 106]);
    assert_eq!(wl.len(), 2);
    assert_eq!(refused_mnemonic(&wl, Some((106, "mov".to_string()))), None);
    assert_eq!(refused_mnemonic(&wl, Some((7, "vadd".to_string()))), Some("vadd".to_string()));
    assert_eq!(refused_mnemonic(&wl, None), None);
}
