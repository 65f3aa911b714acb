use vstd::prelude::*;

use crate::emulator::engine::Engine;
use crate::emulator::state::{ticked, toggled, EmulatorState, EmulatorStatus};
use crate::ui::widgets::code_panel::CodePanelState;

verus! {

broadcast use vstd::std_specs::hash::group_hash_axioms;

/// The keys the debugger tells apart.
#[derive(Clone, Copy, Debug, PartialEq, Eq, Structural)]
pub enum KeyCode {
    Char(char),
    /// A function key F1..F12.
    F(u8),
    Up,
    Down,
    /// Any other key.
    Other,
}

/// A key press; `plain` when no modifier key was held.
#[derive(Clone, Copy, Debug, PartialEq, Eq, Structural)]
pub struct KeyPress {
    pub code: KeyCode,
    pub plain: bool,
}

/// An input to the debugger.
#[derive(Clone, Copy, Debug, PartialEq, Eq, Structural)]
pub enum Event {
    /// A key press.
    Key(KeyPress),
    /// The periodic tick that drives the stack animation.
    Tick,
}

/// What a key asks for.
#[derive(Clone, Copy, Debug, PartialEq, Eq, Structural)]
pub enum KeyAction {
    Quit,
    Step,
    Run,
    Reset,
    Breakpoint,
    ScrollUp,
    ScrollDown,
    Ignore,
}

/// Execution that the event loop must carry out after an event.
#[derive(Clone, Copy, Debug, PartialEq, Eq, Structural)]
pub enum Command {
    Nothing,
    /// Execute one instruction.
    Step,
    /// Execute instructions until `run_halts`.
    Run,
}

/// The key bindings: `q` quits, `s` or F8 steps, `r` (or `R` without a
/// modifier) runs, Shift+`R` resets, `b` toggles a breakpoint, `k`/Up and
/// `j`/Down scroll.
pub open spec fn action_of(k: KeyPress) -> KeyAction {
    match k.code {
        KeyCode::Char(c) => if c == 'q' || c == 'Q' {
            KeyAction::Quit
        } else if c == 's' || c == 'S' {
            KeyAction::Step
        } else if (c == 'r' || c == 'R') && k.plain {
            KeyAction::Run
        } else if c == 'R' {
            KeyAction::Reset
        } else if c == 'b' || c == 'B' {
            KeyAction::Breakpoint
        } else if c == 'k' {
            KeyAction::ScrollUp
        } else if c == 'j' {
            KeyAction::ScrollDown
        } else {
            KeyAction::Ignore
        },
        KeyCode::F(n) => if n == 8 {
            KeyAction::Step
        } else {
            KeyAction::Ignore
        },
        KeyCode::Up => KeyAction::ScrollUp,
        KeyCode::Down => KeyAction::ScrollDown,
        KeyCode::Other => KeyAction::Ignore,
    }
}

/// The key bindings, for every key press whatever modifiers are held: `s`,
/// `S` and F8 step; `q` and `Q` quit; `b` and `B` toggle a breakpoint; `k` and
/// Up scroll up, `j` and Down scroll down; `r` runs when no modifier is held,
/// and `R` runs without a modifier and resets with one.
pub proof fn lemma_key_bindings(k: KeyPress)
    ensures
        k.code == KeyCode::Char('s') || k.code == KeyCode::Char('S') || k.code == KeyCode::F(8)
            ==> action_of(k) == KeyAction::Step,
        k.code == KeyCode::Char('q') || k.code == KeyCode::Char('Q') ==> action_of(k)
            == KeyAction::Quit,
        k.code == KeyCode::Char('b') || k.code == KeyCode::Char('B') ==> action_of(k)
            == KeyAction::Breakpoint,
        k.code == KeyCode::Char('k') || k.code == KeyCode::Up ==> action_of(k)
            == KeyAction::ScrollUp,
        k.code == KeyCode::Char('j') || k.code == KeyCode::Down ==> action_of(k)
            == KeyAction::ScrollDown,
        (k.code == KeyCode::Char('r') || k.code == KeyCode::Char('R')) && k.plain ==> action_of(k)
            == KeyAction::Run,
        k.code == KeyCode::Char('R') && !k.plain ==> action_of(k) == KeyAction::Reset,
        k.code == KeyCode::Char('r') && !k.plain ==> action_of(k) == KeyAction::Ignore,
{
}

/// What a key asks for.
pub fn key_action(k: KeyPress) -> (r: KeyAction)
    ensures
        r == action_of(k),
{
    match k.code {
        KeyCode::Char(c) => if c == 'q' || c == 'Q' {
            KeyAction::Quit
        } else if c == 's' || c == 'S' {
            KeyAction::Step
        } else if (c == 'r' || c == 'R') && k.plain {
            KeyAction::Run
        } else if c == 'R' {
            KeyAction::Reset
        } else if c == 'b' || c == 'B' {
            KeyAction::Breakpoint
        } else if c == 'k' {
            KeyAction::ScrollUp
        } else if c == 'j' {
            KeyAction::ScrollDown
        } else {
            KeyAction::Ignore
        },
        KeyCode::F(n) => if n == 8 {
            KeyAction::Step
        } else {
            KeyAction::Ignore
        },
        KeyCode::Up => KeyAction::ScrollUp,
        KeyCode::Down => KeyAction::ScrollDown,
        KeyCode::Other => KeyAction::Ignore,
    }
}

/// The debugger: the emulator state, its engine and the view state.
pub struct App {
    pub state: EmulatorState,
    pub engine: Engine,
    pub code_panel_state: CodePanelState,
    pub should_quit: bool,
}

impl App {
    /// The debugger for a state and engine, reset to the first instruction.
    pub fn new(state: EmulatorState, engine: Engine) -> (app: Self)
        ensures
            app.engine == engine,
            engine.is_reset_of(state, app.state),
            app.code_panel_state.scroll == 0,
            !app.should_quit,
    {
        let mut app = App {
            state,
            engine,
            code_panel_state: CodePanelState { scroll: 0 },
            should_quit: false,
        };
        app.engine.reset(&mut app.state);
        app
    }

    /// Applies an event to the debugger and says what execution it asks
    /// for: a tick advances the stack animation; a step is asked for only
    /// while paused or idle, a run only while paused; a reset, a breakpoint
    /// toggle on the current line, scrolling and quitting are done here.
    pub fn handle_event(&mut self, event: Event) -> (cmd: Command)
        requires
            event matches Event::Key(k) ==> (action_of(k) == KeyAction::ScrollDown
                ==> old(self).code_panel_state.scroll < usize::MAX),
        ensures
            final(self).engine == old(self).engine,
            event is Tick ==> {
                &&& cmd == Command::Nothing
                &&& final(self).state.stack@ == ticked(old(self).state.stack@)
                &&& final(self).state.same_but_stack(old(self).state)
                &&& final(self).code_panel_state == old(self).code_panel_state
                &&& final(self).should_quit == old(self).should_quit
            },
            event matches Event::Key(k) ==> {
                let a = action_of(k);
                &&& final(self).should_quit == (old(self).should_quit || a == KeyAction::Quit)
                &&& cmd == (if a == KeyAction::Step && (old(self).state.status
                    == EmulatorStatus::Paused || old(self).state.status == EmulatorStatus::Idle) {
                    Command::Step
                } else if a == KeyAction::Run && old(self).state.status == EmulatorStatus::Paused {
                    Command::Run
                } else {
                    Command::Nothing
                })
                &&& final(self).code_panel_state.scroll == (if a == KeyAction::ScrollUp {
                    if old(self).code_panel_state.scroll > 0 {
                        old(self).code_panel_state.scroll - 1
                    } else {
                        0
                    }
                } else if a == KeyAction::ScrollDown {
                    old(self).code_panel_state.scroll + 1
                } else {
                    old(self).code_panel_state.scroll as int
                })
                &&& a == KeyAction::Reset ==> old(self).engine.is_reset_of(
                    old(self).state,
                    final(self).state,
                )
                &&& a == KeyAction::Breakpoint ==> (match old(self).state.current_line {
                    Some(l) => final(self).state.breakpoints@ == toggled(
                        old(self).state.breakpoints@,
                        l,
                    ) && final(self).state.same_but_breakpoints(old(self).state),
                    None => final(self).state == old(self).state,
                })
                &&& a != KeyAction::Reset && a != KeyAction::Breakpoint ==> final(self).state
                    == old(self).state
            },
    {
        match event {
            Event::Tick => {
                self.state.tick_animation();
                Command::Nothing
            },
            Event::Key(k) => match key_action(k) {
                KeyAction::Quit => {
                    self.should_quit = true;
                    Command::Nothing
                },
                KeyAction::Step => {
                    if self.state.status == EmulatorStatus::Paused || self.state.status
                        == EmulatorStatus::Idle {
                        Command::Step
                    } else {
                        Command::Nothing
                    }
                },
                KeyAction::Run => {
                    if self.state.status == EmulatorStatus::Paused {
                        Command::Run
                    } else {
                        Command::Nothing
                    }
                },
                KeyAction::Reset => {
                    self.engine.reset(&mut self.state);
                    Command::Nothing
                },
                KeyAction::Breakpoint => {
                    if let Some(line) = self.state.current_line {
                        self.state.toggle_breakpoint(line);
                    }
                    Command::Nothing
                },
                KeyAction::ScrollUp => {
                    self.code_panel_state.scroll = self.code_panel_state.scroll.saturating_sub(1);
                    Command::Nothing
                },
                KeyAction::ScrollDown => {
                    self.code_panel_state.scroll = self.code_panel_state.scroll + 1;
                    Command::Nothing
                },
                KeyAction::Ignore => Command::Nothing,
            },
        }
    }

    /// A run stops once the state is no longer paused or the current line
    /// holds a breakpoint.
    pub fn run_halts(&self) -> (r: bool)
        ensures
            r == (self.state.status != EmulatorStatus::Paused || (self.state.current_line matches Some(l)
                && self.state.breakpoints@.contains(l))),
    {
        if self.state.status != EmulatorStatus::Paused {
            return true;
        }
        match self.state.current_line {
            Some(line) => self.state.breakpoints.contains(&line),
            None => false,
        }
    }
}

} // verus!
