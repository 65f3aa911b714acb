use vstd::prelude::*;

use crate::emulator::state::{EmulatorState, EmulatorStatus};

verus! {

/// The text that shows a status.
pub open spec fn status_text(s: EmulatorStatus) -> Seq<char> {
    match s {
        EmulatorStatus::Idle => "● 初始化"@,
        EmulatorStatus::Paused => "‖ 已暂停"@,
        EmulatorStatus::Running => "▶ 运行中"@,
        EmulatorStatus::Finished => "✓ 完成"@,
        EmulatorStatus::Error => "✗ 错误"@,
    }
}

/// The colour in which a status is shown.
#[derive(Clone, Copy, Debug, PartialEq, Eq, Structural)]
pub enum StatusTone {
    /// Dark grey: not started.
    Dim,
    /// Yellow: paused.
    Waiting,
    /// Green: running.
    Active,
    /// Light green: finished.
    Done,
    /// Light red: stopped by an error.
    Failed,
}

pub open spec fn tone_of(s: EmulatorStatus) -> StatusTone {
    match s {
        EmulatorStatus::Idle => StatusTone::Dim,
        EmulatorStatus::Paused => StatusTone::Waiting,
        EmulatorStatus::Running => StatusTone::Active,
        EmulatorStatus::Finished => StatusTone::Done,
        EmulatorStatus::Error => StatusTone::Failed,
    }
}

/// The text of a status.
pub fn status_label(s: EmulatorStatus) -> (r: &'static str)
    ensures
        r@ == status_text(s),
{
    match s {
        EmulatorStatus::Idle => "● 初始化",
        EmulatorStatus::Paused => "‖ 已暂停",
        EmulatorStatus::Running => "▶ 运行中",
        EmulatorStatus::Finished => "✓ 完成",
        EmulatorStatus::Error => "✗ 错误",
    }
}

/// The colour of a status.
pub fn status_tone(s: EmulatorStatus) -> (r: StatusTone)
    ensures
        r == tone_of(s),
{
    match s {
        EmulatorStatus::Idle => StatusTone::Dim,
        EmulatorStatus::Paused => StatusTone::Waiting,
        EmulatorStatus::Running => StatusTone::Active,
        EmulatorStatus::Finished => StatusTone::Done,
        EmulatorStatus::Error => StatusTone::Failed,
    }
}

/// The error part of the status line: empty without an error.
pub fn error_line(e: &Option<String>) -> (r: String)
    ensures
        match e {
            Some(x) => r@ == "  错误: "@ + x@,
            None => r@ == Seq::<char>::empty(),
        },
{
    match e {
        Some(x) => {
            let mut r = String::from_str("  错误: ");
            r.append(x.as_str());
            r
        },
        None => String::new(),
    }
}

/// The key help at the end of the status line.
pub fn help_text() -> (r: &'static str)
    ensures
        r@ == "  [s]单步  [r]运行  [b]断点  [R]重置  [q]退出"@,
{
    "  [s]单步  [r]运行  [b]断点  [R]重置  [q]退出"
}

/// The status line: run status, error and key help.
pub struct StatusBar<'a> {
    pub state: &'a EmulatorState,
}

impl<'a> StatusBar<'a> {
    /// The text of the current status.
    pub fn label(&self) -> (r: &'static str)
        ensures
            r@ == status_text(self.state.status),
    {
        status_label(self.state.status)
    }

    /// The status as drawn: its text with a space on each side.
    pub fn label_text(&self) -> (r: String)
        ensures
            r@ == " "@ + status_text(self.state.status) + " "@,
    {
        let mut r = String::from_str(" ");
        r.append(status_label(self.state.status));
        r.append(" ");
        r
    }

    /// The whole status line: the status, the error part and the key help.
    pub fn line(&self) -> (r: String)
        ensures
            r@ == " "@ + status_text(self.state.status) + " "@ + (match self.state.error {
                Some(x) => "  错误: "@ + x@,
                None => Seq::<char>::empty(),
            }) + "  [s]单步  [r]运行  [b]断点  [R]重置  [q]退出"@,
    {
        let mut r = self.label_text();
        r.append(self.error_part().as_str());
        r.append(help_text());
        r
    }

    /// The colour of the current status.
    pub fn tone(&self) -> (r: StatusTone)
        ensures
            r == tone_of(self.state.status),
    {
        status_tone(self.state.status)
    }

    /// The error part of the line.
    pub fn error_part(&self) -> (r: String)
        ensures
            match self.state.error {
                Some(x) => r@ == "  错误: "@ + x@,
                None => r@ == Seq::<char>::empty(),
            },
    {
        error_line(&self.state.error)
    }
}

} // verus!
