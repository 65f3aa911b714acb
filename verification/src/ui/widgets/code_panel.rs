use vstd::prelude::*;

use crate::emulator::state::EmulatorState;
use crate::text::{append_number, digits, pad_left};

verus! {

broadcast use vstd::std_specs::hash::group_hash_axioms;

/// `x - y`, or 0 where `y` exceeds `x`.
pub open spec fn sat_sub(x: int, y: int) -> int {
    if x >= y {
        x - y
    } else {
        0
    }
}

/// Scroll position of the code panel: the first source line it shows.
pub struct CodePanelState {
    pub scroll: usize,
}

impl Default for CodePanelState {
    fn default() -> (s: Self)
        ensures
            s.scroll == 0,
    {
        CodePanelState { scroll: 0 }
    }
}

/// The scroll position after making `current_line` visible in a panel of
/// `height` rows scrolled to `scroll`.
pub open spec fn visible_scroll(scroll: int, current_line: Option<usize>, height: int) -> int {
    match current_line {
        None => scroll,
        Some(l) => if l < scroll {
            l as int
        } else if l >= scroll + sat_sub(height, 2) {
            sat_sub(l as int, sat_sub(height, 3))
        } else {
            scroll
        },
    }
}

impl CodePanelState {
    /// Scrolls just enough that the current line is inside the panel, which
    /// shows `height - 2` lines from `scroll` on: up to the line when it lies
    /// above, down so that it is the last line shown when it lies below.
    pub fn ensure_visible(&mut self, current_line: Option<usize>, height: usize)
        requires
            current_line matches Some(l) && l >= old(self).scroll ==> old(self).scroll + sat_sub(
                height as int,
                2,
            ) <= usize::MAX,
        ensures
            final(self).scroll == visible_scroll(old(self).scroll as int, current_line, height as int),
            current_line matches Some(l) ==> (height >= 3 ==> final(self).scroll <= l
                < final(self).scroll + (height - 2)),
    {
        if let Some(line) = current_line {
            if line < self.scroll {
                self.scroll = line;
            } else if line >= self.scroll + height.saturating_sub(2) {
                self.scroll = line.saturating_sub(height.saturating_sub(3));
            }
        }
    }
}

/// The code panel: the source listing with the current line and breakpoints.
pub struct CodePanel<'a> {
    pub state: &'a EmulatorState,
}

/// One line of the code panel.
pub struct CodeRow {
    /// Index of the source line (from 0); its number is `index + 1`.
    pub index: usize,
    /// The line is the one at PC.
    pub is_current: bool,
    /// The line holds a breakpoint.
    pub is_breakpoint: bool,
}

/// `rows` are the code panel rows for the lines from `scroll` on.
pub open spec fn rows_from(rows: Seq<CodeRow>, scroll: int, state: EmulatorState) -> bool {
    forall|k: int|
        #![trigger rows[k]]
        0 <= k < rows.len() ==> {
            &&& rows[k].index == scroll + k
            &&& rows[k].is_current == (state.current_line == Some((scroll + k) as usize))
            &&& rows[k].is_breakpoint == state.breakpoints@.contains((scroll + k) as usize)
        }
}

impl<'a> CodePanel<'a> {
    /// The lines that a panel of `height` rows (two of them border) shows
    /// from line `scroll` on, with their markers.
    pub fn rows(&self, scroll: usize, height: usize) -> (r: Vec<CodeRow>)
        ensures
            r@.len() == (if sat_sub(self.state.source_lines@.len() as int, scroll as int)
                < sat_sub(height as int, 2) {
                sat_sub(self.state.source_lines@.len() as int, scroll as int)
            } else {
                sat_sub(height as int, 2)
            }),
            rows_from(r@, scroll as int, *self.state),
    {
        let n = self.state.source_lines.len();
        let visible = height.saturating_sub(2);
        let mut rows: Vec<CodeRow> = Vec::new();
        let mut i = scroll;
        while i < n && i - scroll < visible
            invariant
                n == self.state.source_lines@.len(),
                visible == sat_sub(height as int, 2),
                scroll <= i,
                i <= n || i == scroll,
                i - scroll <= visible,
                rows@.len() == i - scroll,
                rows_from(rows@, scroll as int, *self.state),
            decreases n - i,
        {
            let is_current = match self.state.current_line {
                Some(c) => c == i,
                None => false,
            };
            let is_breakpoint = self.state.breakpoints.contains(&i);
            rows.push(CodeRow { index: i, is_current, is_breakpoint });
            i = i + 1;
        }
        rows
    }
}

/// The marker text in front of a line number: `►` on the current line.
pub open spec fn current_mark(is_current: bool) -> Seq<char> {
    if is_current {
        "►"@
    } else {
        " "@
    }
}

/// The marker text after a line number: `●` on a breakpoint.
pub open spec fn breakpoint_mark(is_breakpoint: bool) -> Seq<char> {
    if is_breakpoint {
        "● "@
    } else {
        "  "@
    }
}

/// The line number of source line `index`, right-aligned in four columns,
/// and a space.
pub open spec fn number_text(index: int) -> Seq<char> {
    pad_left(digits((index + 1) as nat, 10), 4, ' ') + " "@
}

/// The text in front of source line `index`: the current-line marker, the
/// line number, the breakpoint marker.
pub open spec fn line_prefix(index: int, is_current: bool, is_breakpoint: bool) -> Seq<char> {
    current_mark(is_current) + number_text(index) + breakpoint_mark(is_breakpoint)
}

/// One drawn line of the code panel.
pub struct CodeLine {
    /// Index of the source line (from 0).
    pub index: usize,
    pub is_current: bool,
    pub is_breakpoint: bool,
    /// The current-line marker.
    pub mark_text: String,
    /// The line number and a space.
    pub number_text: String,
    /// The breakpoint marker.
    pub breakpoint_text: String,
}

impl CodeLine {
    /// Everything drawn before the source text.
    pub fn prefix(&self) -> (r: String)
        ensures
            r@ == self.mark_text@ + self.number_text@ + self.breakpoint_text@,
    {
        let mut r = self.mark_text.clone();
        r.append(self.number_text.as_str());
        r.append(self.breakpoint_text.as_str());
        r
    }
}

/// `lines` are the drawn lines for the rows `rows`.
pub open spec fn lines_for(lines: Seq<CodeLine>, rows: Seq<CodeRow>) -> bool {
    &&& lines.len() == rows.len()
    &&& forall|k: int|
        #![trigger lines[k]]
        0 <= k < lines.len() ==> {
            &&& lines[k].index == rows[k].index
            &&& lines[k].is_current == rows[k].is_current
            &&& lines[k].is_breakpoint == rows[k].is_breakpoint
            &&& lines[k].mark_text@ == current_mark(rows[k].is_current)
            &&& lines[k].number_text@ == number_text(rows[k].index as int)
            &&& lines[k].breakpoint_text@ == breakpoint_mark(rows[k].is_breakpoint)
        }
}

fn number_string(index: usize) -> (r: String)
    requires
        index < usize::MAX,
    ensures
        r@ == number_text(index as int),
{
    let mut r = String::new();
    proof {
        reveal_strlit(" ");
    }
    append_number(&mut r, (index + 1) as u64, 10, false, 4, " ");
    r.append(" ");
    assert(r@ =~= number_text(index as int));
    r
}

fn mark_string(is_current: bool) -> (r: String)
    ensures
        r@ == current_mark(is_current),
{
    if is_current {
        String::from_str("►")
    } else {
        String::from_str(" ")
    }
}

fn breakpoint_string(is_breakpoint: bool) -> (r: String)
    ensures
        r@ == breakpoint_mark(is_breakpoint),
{
    if is_breakpoint {
        String::from_str("● ")
    } else {
        String::from_str("  ")
    }
}

impl<'a> CodePanel<'a> {
    /// The panel's title: the file name with a space on each side.
    pub fn title(&self) -> (r: String)
        ensures
            r@ == " "@ + self.state.file_name@ + " "@,
    {
        let mut r = String::from_str(" ");
        r.append(self.state.file_name.as_str());
        r.append(" ");
        r
    }

    /// What a panel of `height` rows draws: it first scrolls so that the
    /// current line is visible, then lists the lines from the new scroll
    /// position with their markers and numbers.
    pub fn lines(&self, panel: &mut CodePanelState, height: usize) -> (r: Vec<CodeLine>)
        requires
            self.state.current_line matches Some(l) && l >= old(panel).scroll ==> old(panel).scroll
                + sat_sub(height as int, 2) <= usize::MAX,
        ensures
            final(panel).scroll == visible_scroll(
                old(panel).scroll as int,
                self.state.current_line,
                height as int,
            ),
            r@.len() == (if sat_sub(self.state.source_lines@.len() as int, final(panel).scroll as int)
                < sat_sub(height as int, 2) {
                sat_sub(self.state.source_lines@.len() as int, final(panel).scroll as int)
            } else {
                sat_sub(height as int, 2)
            }),
            forall|k: int|
                #![trigger r@[k]]
                0 <= k < r@.len() ==> {
                    let i = final(panel).scroll + k;
                    &&& r@[k].index == i
                    &&& r@[k].is_current == (self.state.current_line == Some(i as usize))
                    &&& r@[k].is_breakpoint == self.state.breakpoints@.contains(i as usize)
                    &&& r@[k].mark_text@ + r@[k].number_text@ + r@[k].breakpoint_text@
                        == line_prefix(i, r@[k].is_current, r@[k].is_breakpoint)
                    &&& r@[k].mark_text@ == current_mark(r@[k].is_current)
                    &&& r@[k].number_text@ == number_text(i)
                    &&& r@[k].breakpoint_text@ == breakpoint_mark(r@[k].is_breakpoint)
                },
    {
        panel.ensure_visible(self.state.current_line, height);
        let rows = self.rows(panel.scroll, height);
        assert forall|k: int| 0 <= k < rows@.len() implies #[trigger] rows@[k].index
            < self.state.source_lines@.len() by {
            assert(rows@[k].index == panel.scroll + k);
        }
        let n = self.state.source_lines.len();
        let mut lines: Vec<CodeLine> = Vec::new();
        let mut i: usize = 0;
        while i < rows.len()
            invariant
                n == self.state.source_lines@.len(),
                i <= rows@.len(),
                rows_from(rows@, panel.scroll as int, *self.state),
                forall|k: int| 0 <= k < rows@.len() ==> #[trigger] rows@[k].index
                    < self.state.source_lines@.len(),
                lines_for(lines@, rows@.take(i as int)),
            decreases rows@.len() - i,
        {
            let row = &rows[i];
            assert(row.index < self.state.source_lines@.len());
            lines.push(
                CodeLine {
                    index: row.index,
                    is_current: row.is_current,
                    is_breakpoint: row.is_breakpoint,
                    mark_text: mark_string(row.is_current),
                    number_text: number_string(row.index),
                    breakpoint_text: breakpoint_string(row.is_breakpoint),
                },
            );
            proof {
                assert(rows@.take(i + 1) =~= rows@.take(i as int).push(rows@[i as int]));
            }
            i = i + 1;
        }
        assert(rows@.take(rows@.len() as int) =~= rows@);
        lines
    }
}

} // verus!
