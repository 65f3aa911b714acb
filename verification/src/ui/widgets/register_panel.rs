use vstd::prelude::*;
use vstd::string::StrSliceExecFns;

use crate::emulator::registers::{reg_name, reg_name_of, CpsrFlags};
use crate::emulator::state::EmulatorState;
use crate::text::{
    hex_string, hex_text, lemma_as_i32, lemma_hex_text, lemma_signed_text, lemma_trim_spaces_front,
    no_lower, pad_left, signed_digits, signed_string, signed_value, trim_start, value_of,
};

verus! {

/// How a register's name is highlighted.
#[derive(Clone, Copy, Debug, PartialEq, Eq, Structural)]
pub enum RegisterRole {
    /// The stack pointer (r13), always marked.
    Sp,
    /// The frame pointer (r11), always marked.
    Fp,
    /// Any other register whose value the last step changed.
    Changed,
    /// Any other register.
    Plain,
}

/// One line of the register panel.
pub struct RegisterRow {
    /// Register number (0..15).
    pub index: usize,
    /// Current value.
    pub value: u32,
    /// The last step changed the value.
    pub changed: bool,
    pub role: RegisterRole,
    /// The name, right-aligned in three columns, and `: `.
    pub name_text: String,
    /// The value as `0x` and eight upper-case hexadecimal digits.
    pub value_text: String,
    /// Two spaces and the value read as a signed number, right-aligned in ten columns.
    pub decimal_text: String,
}

/// The name part of register `i`'s line.
pub open spec fn name_text_of(i: int) -> Seq<char> {
    pad_left(reg_name_of(i), 3, ' ') + ": "@
}

/// The signed-decimal part of a register line.
pub open spec fn decimal_text_of(value: u32) -> Seq<char> {
    "  "@ + pad_left(signed_digits((value as i32) as int), 10, ' ')
}

/// `0` or `1` for a flag.
pub open spec fn flag_text(b: bool) -> Seq<char> {
    if b {
        "1"@
    } else {
        "0"@
    }
}

/// The CPSR line: the value in hexadecimal and the four condition flags.
pub open spec fn cpsr_line(cpsr: u32) -> Seq<char> {
    let f = CpsrFlags::spec_flags(cpsr);
    "CPSR: "@ + hex_text(cpsr as nat, 8) + " N:"@ + flag_text(f.n) + " Z:"@ + flag_text(f.z)
        + " C:"@ + flag_text(f.c) + " V:"@ + flag_text(f.v)
}

/// The role of register `i` given whether its value changed.
pub open spec fn role_of(i: int, changed: bool) -> RegisterRole {
    if i == 13 {
        RegisterRole::Sp
    } else if i == 11 {
        RegisterRole::Fp
    } else if changed {
        RegisterRole::Changed
    } else {
        RegisterRole::Plain
    }
}

/// The first `n` register lines of `state`, r0 first.
pub open spec fn register_rows(rows: Seq<RegisterRow>, state: EmulatorState, n: int) -> bool {
    &&& rows.len() == n
    &&& forall|r: int|
        #![trigger rows[r]]
        0 <= r < n ==> {
            &&& rows[r].index == r
            &&& rows[r].value == state.regs[r]
            &&& rows[r].changed == (state.regs[r] != state.prev_regs[r])
            &&& rows[r].role == role_of(r, rows[r].changed)
            &&& rows[r].name_text@ == name_text_of(r)
            &&& rows[r].value_text@ == hex_text(state.regs[r] as nat, 8)
            &&& rows[r].decimal_text@ == decimal_text_of(state.regs[r])
        }
}

/// The register panel: r0..r15 and the CPSR with its flags.
pub struct RegisterPanel<'a> {
    pub state: &'a EmulatorState,
}

impl<'a> RegisterPanel<'a> {
    /// The sixteen register lines, r0 first.
    pub fn rows(&self) -> (r: Vec<RegisterRow>)
        ensures
            register_rows(r@, *self.state, 16),
    {
        let mut rows: Vec<RegisterRow> = Vec::new();
        let mut i: usize = 0;
        while i < 16
            invariant
                i <= 16,
                register_rows(rows@, *self.state, i as int),
            decreases 16 - i,
        {
            let value = self.state.regs[i];
            let changed = value != self.state.prev_regs[i];
            let role = if i == 13 {
                RegisterRole::Sp
            } else if i == 11 {
                RegisterRole::Fp
            } else if changed {
                RegisterRole::Changed
            } else {
                RegisterRole::Plain
            };
            let mut name_text = left_padded(reg_name(i), 3);
            name_text.append(": ");
            let mut decimal_text = String::from_str("  ");
            decimal_text.append(signed_string(value as i32, 10).as_str());
            rows.push(
                RegisterRow {
                    index: i,
                    value,
                    changed,
                    role,
                    name_text,
                    value_text: hex_string(value as u64, 8),
                    decimal_text,
                },
            );
            i = i + 1;
        }
        rows
    }

    /// The last step changed the CPSR.
    pub fn cpsr_changed(&self) -> (r: bool)
        ensures
            r == (self.state.cpsr != self.state.prev_cpsr),
    {
        self.state.cpsr != self.state.prev_cpsr
    }

    /// The CPSR line of the panel.
    pub fn cpsr_text(&self) -> (r: String)
        ensures
            r@ == cpsr_line(self.state.cpsr),
    {
        let f = CpsrFlags::from_cpsr(self.state.cpsr);
        let mut r = String::from_str("CPSR: ");
        r.append(hex_string(self.state.cpsr as u64, 8).as_str());
        r.append(" N:");
        r.append(flag_str(f.n));
        r.append(" Z:");
        r.append(flag_str(f.z));
        r.append(" C:");
        r.append(flag_str(f.c));
        r.append(" V:");
        r.append(flag_str(f.v));
        r
    }

    /// The condition flags of the current CPSR.
    pub fn flags(&self) -> (r: CpsrFlags)
        ensures
            r == CpsrFlags::spec_flags(self.state.cpsr),
    {
        CpsrFlags::from_cpsr(self.state.cpsr)
    }
}

fn flag_str(b: bool) -> (r: &'static str)
    ensures
        r@ == flag_text(b),
{
    if b {
        "1"
    } else {
        "0"
    }
}

/// `text` filled on the left with spaces up to `width` characters.
fn left_padded(text: &str, width: usize) -> (r: String)
    ensures
        r@ == pad_left(text@, width as nat, ' '),
{
    let mut r = String::new();
    let n = text.unicode_len();
    if width > n {
        let pad = width - n;
        let mut i: usize = 0;
        proof {
            reveal_strlit(" ");
        }
        while i < pad
            invariant
                " "@ =~= seq![' '],
                i <= pad,
                r@ == Seq::new(i as nat, |j: int| ' '),
            decreases pad - i,
        {
            r.append(" ");
            i = i + 1;
            assert(r@ =~= Seq::new(i as nat, |j: int| ' '));
        }
    }
    r.append(text);
    assert(r@ =~= pad_left(text@, width as nat, ' '));
    r
}

/// What each register line reads: its value as `0x` and upper-case
/// hexadecimal digits (eight at least) that denote the register, and, after
/// the spaces in front, a signed decimal that denotes the register read as a
/// two's-complement 32-bit number.
pub proof fn lemma_register_texts(rows: Seq<RegisterRow>, state: EmulatorState)
    requires
        register_rows(rows, state, 16),
    ensures
        forall|r: int|
            #![trigger rows[r]]
            0 <= r < 16 ==> {
                &&& rows[r].value_text@.len() >= 10
                &&& rows[r].value_text@[0] == '0'
                &&& rows[r].value_text@[1] == 'x'
                &&& value_of(rows[r].value_text@.skip(2), 16) == state.regs[r]
                &&& no_lower(rows[r].value_text@.skip(2))
                &&& rows[r].decimal_text@.len() >= 12
                &&& signed_value(trim_start(rows[r].decimal_text@)) == (if state.regs[r]
                    < 0x8000_0000 {
                    state.regs[r] as int
                } else {
                    state.regs[r] - 0x1_0000_0000
                })
            },
{
    assert forall|r: int| 0 <= r < 16 implies {
        &&& #[trigger] rows[r].value_text@.len() >= 10
        &&& rows[r].value_text@[0] == '0'
        &&& rows[r].value_text@[1] == 'x'
        &&& value_of(rows[r].value_text@.skip(2), 16) == state.regs[r]
        &&& no_lower(rows[r].value_text@.skip(2))
        &&& rows[r].decimal_text@.len() >= 12
        &&& signed_value(trim_start(rows[r].decimal_text@)) == (if state.regs[r] < 0x8000_0000 {
            state.regs[r] as int
        } else {
            state.regs[r] - 0x1_0000_0000
        })
    } by {
        let v = state.regs[r];
        lemma_hex_text(v as nat, 8);
        lemma_as_i32(v);
        let x = (v as i32) as int;
        lemma_signed_text(x, 10);
        reveal_strlit("  ");
        assert("  "@ =~= Seq::new(2, |i: int| ' '));
        lemma_trim_spaces_front(2, pad_left(signed_digits(x), 10, ' '));
    }
}

} // verus!
