use vstd::prelude::*;

use crate::emulator::assembler::AssembledProgram;
use crate::emulator::error::EmulatorError;
use crate::emulator::memory::{STACK_DISPLAY_WORDS, STACK_TOP};
use crate::emulator::registers::CpsrFlags;
use crate::emulator::state::{
    after_stores, clone_words, count_down, descending, fades_bounded, record_stores, EmulatorState,
    EmulatorStatus, MemStore, StackWord,
};
use std::collections::HashMap;

verus! {

broadcast use vstd::std_specs::hash::group_hash_axioms;

/// The value a map gives for `k`, if any.
pub open spec fn lookup(m: Map<u32, usize>, k: u32) -> Option<usize> {
    if m.contains_key(k) {
        Some(m[k])
    } else {
        None
    }
}

/// Address of the `i`-th word of the stack window, counted down from the stack top.
pub open spec fn window_addr(i: int) -> u32 {
    (STACK_TOP - 4 * (i + 1)) as u32
}

/// The first word of `s` at `addr`, if any.
pub open spec fn find_word(s: Seq<StackWord>, addr: u32) -> Option<StackWord>
    decreases s.len(),
{
    if s.len() == 0 {
        None
    } else if s[0].addr == addr {
        Some(s[0])
    } else {
        find_word(s.drop_first(), addr)
    }
}

/// The (fade-in, fade-out) counters of a word after a step, from the same
/// word before the step (if the snapshot had it) and whether it is in use
/// now: a word that appears in use starts fading in, a word that leaves use
/// starts fading out, and otherwise the running counters count down.
pub open spec fn fades(prev: Option<StackWord>, in_use: bool) -> (u8, u8) {
    match prev {
        None => if in_use {
            (8, 0)
        } else {
            (0, 0)
        },
        Some(p) => if p.in_use && !in_use {
            (0, 8)
        } else {
            (count_down(p.fade_in), count_down(p.fade_out))
        },
    }
}

/// The bytes of a word as read from memory; zeros where the read failed.
pub open spec fn read_bytes(read: Option<[u8; 4]>) -> Seq<u8> {
    match read {
        Some(b) => b@,
        None => seq![0u8, 0u8, 0u8, 0u8],
    }
}

/// The snapshot entry for the word at `addr` after a step.
pub open spec fn next_word_ok(
    w: StackWord,
    addr: u32,
    read: Option<[u8; 4]>,
    sp: u32,
    prev: Seq<StackWord>,
) -> bool {
    &&& w.addr == addr
    &&& w.bytes@ == read_bytes(read)
    &&& w.in_use == (addr >= sp)
    &&& (w.fade_in, w.fade_out) == fades(find_word(prev, addr), addr >= sp)
}

/// The snapshot after a step: the window of words below the stack top, high
/// addresses first, each built from its memory read, SP and the snapshot
/// before the step.
pub open spec fn next_stack_ok(
    s: Seq<StackWord>,
    sp: u32,
    prev: Seq<StackWord>,
    reads: Seq<Option<[u8; 4]>>,
) -> bool {
    &&& s.len() == STACK_DISPLAY_WORDS
    &&& forall|i: int|
        0 <= i < s.len() ==> next_word_ok(#[trigger] s[i], window_addr(i), reads[i], sp, prev)
}

/// What one emulated instruction produced, as the machine reported it.
pub struct StepOutcome {
    /// The reason execution was stopped with an error, if it was.
    pub error: Option<String>,
    /// r0..r15 after the instruction.
    pub regs: [u32; 16],
    /// CPSR after the instruction.
    pub cpsr: u32,
    /// Text written by `sys_write` during the instruction.
    pub output: String,
    /// The instruction was a `sys_exit` (or `sys_exit_group`) call.
    pub exited: bool,
    /// The memory stores the instruction made, in order.
    pub stores: Vec<MemStore>,
    /// The memory of each word of the stack window (see `stack_window_addr`),
    /// `None` where it could not be read.
    pub stack_reads: Vec<Option<[u8; 4]>>,
}

/// Address of the `i`-th word of the stack window shown by the stack panel.
pub fn stack_window_addr(i: usize) -> (r: u32)
    requires
        i < STACK_DISPLAY_WORDS,
    ensures
        r == window_addr(i as int),
{
    (STACK_TOP - 4 * (i as u64 + 1)) as u32
}

fn lookup_line(program: &AssembledProgram, addr: u32) -> (r: Option<usize>)
    ensures
        r == lookup(program.addr_to_line@, addr),
{
    match program.addr_to_line.get(&addr) {
        Some(line) => Some(*line),
        None => None,
    }
}

fn find_prev(prev: &Vec<StackWord>, addr: u32) -> (r: Option<StackWord>)
    ensures
        r == find_word(prev@, addr),
{
    let mut i: usize = 0;
    assert(prev@.subrange(0, prev@.len() as int) =~= prev@);
    while i < prev.len()
        invariant
            i <= prev@.len(),
            find_word(prev@, addr) == find_word(prev@.subrange(i as int, prev@.len() as int), addr),
        decreases prev@.len() - i,
    {
        let ghost rest = prev@.subrange(i as int, prev@.len() as int);
        assert(rest[0] == prev@[i as int]);
        if prev[i].addr == addr {
            return Some(prev[i]);
        }
        assert(rest.drop_first() =~= prev@.subrange(i + 1, prev@.len() as int));
        i = i + 1;
    }
    None
}

/// The words of the snapshot that are in use, in order: what must be written
/// back into memory before an instruction runs on this state.
pub fn words_to_restore(state: &EmulatorState) -> (r: Vec<StackWord>)
    ensures
        r@ == state.stack@.filter(|w: StackWord| w.in_use),
{
    let ghost s = state.stack@;
    let mut r: Vec<StackWord> = Vec::new();
    let mut i: usize = 0;
    while i < state.stack.len()
        invariant
            s == state.stack@,
            i <= s.len(),
            r@ == s.take(i as int).filter(|w: StackWord| w.in_use),
        decreases s.len() - i,
    {
        let w = state.stack[i];
        proof {
            assert(s.take(i + 1) =~= s.take(i as int).push(w));
            s.take(i as int).lemma_filter_push(w, |w: StackWord| w.in_use);
        }
        if w.in_use {
            r.push(w);
        }
        i = i + 1;
    }
    assert(s.take(s.len() as int) =~= s);
    r
}

/// Runs an assembled program one instruction at a time, on an emulator state.
pub struct Engine {
    assembled: AssembledProgram,
}

impl Engine {
    /// The program that the engine runs.
    pub closed spec fn program(self) -> AssembledProgram {
        self.assembled
    }

    /// Whether `pc` lies inside the program's code.
    pub open spec fn in_code(self, pc: u32) -> bool {
        self.program().base_addr <= pc < self.program().base_addr + self.program().code@.len()
    }

    /// An engine for an assembled program; it never fails.
    pub fn new(assembled: AssembledProgram) -> (r: Result<Self, EmulatorError>)
        ensures
            r matches Ok(e) && e.program() == assembled,
    {
        Ok(Engine { assembled })
    }

    /// The program that the engine runs.
    pub fn assembled(&self) -> (r: &AssembledProgram)
        ensures
            *r == self.program(),
    {
        &self.assembled
    }

    /// `after` is `before` put back at the first instruction: registers zero
    /// but SP (the stack top) and PC (the code base), no history, an empty
    /// stack snapshot and output, paused, with source and breakpoints kept.
    pub open spec fn is_reset_of(self, before: EmulatorState, after: EmulatorState) -> bool {
        &&& after.regs@ == Seq::new(
            16,
            |i: int|
                if i == 13 {
                    STACK_TOP as u32
                } else if i == 15 {
                    self.program().base_addr
                } else {
                    0u32
                },
        )
        &&& after.prev_regs == after.regs
        &&& after.cpsr == 0
        &&& after.prev_cpsr == 0
        &&& after.current_line == lookup(self.program().addr_to_line@, self.program().base_addr)
        &&& after.stack@.len() == 0
        &&& after.prev_stack@.len() == 0
        &&& after.output_buffer@ == Seq::<char>::empty()
        &&& after.memory@ == Map::<u32, u8>::empty()
        &&& after.status == EmulatorStatus::Paused
        &&& after.error is None
        &&& after.same_setup(before)
    }

    /// Puts the state back at the first instruction: registers zero but SP
    /// (the stack top) and PC (the code base), no history, an empty stack
    /// snapshot and output, paused. Source and breakpoints are kept.
    pub fn reset(&self, state: &mut EmulatorState)
        ensures
            self.is_reset_of(*old(state), *final(state)),
    {
        let base = self.assembled.base_addr;
        let top = STACK_TOP as u32;
        let regs: [u32; 16] = [0, 0, 0, 0, 0, 0, 0, 0, 0, 0, 0, 0, 0, top, 0, base];
        state.regs = regs;
        state.prev_regs = regs;
        state.cpsr = 0;
        state.prev_cpsr = 0;
        state.current_line = lookup_line(&self.assembled, base);
        state.stack = Vec::new();
        state.prev_stack = Vec::new();
        state.output_buffer = String::new();
        state.memory = HashMap::new();
        state.status = EmulatorStatus::Paused;
        state.error = None;
        assert(state.regs@ =~= Seq::new(
            16,
            |i: int|
                if i == 13 {
                    STACK_TOP as u32
                } else if i == 15 {
                    base
                } else {
                    0u32
                },
        ));
    }

    /// The first half of a step, before the instruction runs. A finished or
    /// failed state is left alone; a PC outside the code finishes the run;
    /// otherwise the current registers, CPSR and stack become the history
    /// and the instruction at PC is to be run (`true`).
    pub fn begin_step(&self, state: &mut EmulatorState) -> (run: bool)
        ensures
            (old(state).status == EmulatorStatus::Finished || old(state).status
                == EmulatorStatus::Error) ==> !run && *final(state) == *old(state),
            (old(state).status != EmulatorStatus::Finished && old(state).status
                != EmulatorStatus::Error && !self.in_code(old(state).regs[15])) ==> {
                &&& !run
                &&& final(state).status == EmulatorStatus::Finished
                &&& final(state).same_history(*old(state))
                &&& final(state).same_run_but_status(*old(state))
                &&& final(state).same_setup(*old(state))
            },
            (old(state).status != EmulatorStatus::Finished && old(state).status
                != EmulatorStatus::Error && self.in_code(old(state).regs[15])) ==> {
                &&& run
                &&& final(state).prev_regs == old(state).regs
                &&& final(state).prev_cpsr == old(state).cpsr
                &&& final(state).prev_stack@ == old(state).stack@
                &&& final(state).status == old(state).status
                &&& final(state).same_run_but_status(*old(state))
                &&& final(state).same_setup(*old(state))
            },
    {
        if state.status == EmulatorStatus::Finished || state.status == EmulatorStatus::Error {
            return false;
        }
        let pc = state.pc();
        let base = self.assembled.base_addr;
        if pc < base || (pc - base) as usize >= self.assembled.code.len() {
            state.status = EmulatorStatus::Finished;
            return false;
        }
        state.prev_regs = state.regs;
        state.prev_cpsr = state.cpsr;
        state.prev_stack = clone_words(&state.stack);
        true
    }

    /// Rebuilds the stack snapshot after an instruction, from SP, the
    /// snapshot before the step and the memory of the stack window.
    pub fn update_stack(&self, state: &mut EmulatorState, reads: &Vec<Option<[u8; 4]>>)
        requires
            reads@.len() == STACK_DISPLAY_WORDS,
        ensures
            next_stack_ok(final(state).stack@, old(state).regs[13], old(state).prev_stack@, reads@),
            descending(final(state).stack@),
            fades_bounded(old(state).prev_stack@) ==> fades_bounded(final(state).stack@),
            final(state).same_but_stack(*old(state)),
    {
        let sp = state.sp();
        let mut words: Vec<StackWord> = Vec::new();
        let mut i: usize = 0;
        while i < STACK_DISPLAY_WORDS
            invariant
                reads@.len() == STACK_DISPLAY_WORDS,
                i <= STACK_DISPLAY_WORDS,
                sp == state.regs[13],
                words@.len() == i,
                forall|j: int|
                    0 <= j < i ==> next_word_ok(
                        #[trigger] words@[j],
                        window_addr(j),
                        reads@[j],
                        sp,
                        state.prev_stack@,
                    ),
                forall|j: int| 0 <= j < i ==> #[trigger] words@[j].addr == window_addr(j),
                fades_bounded(state.prev_stack@) ==> fades_bounded(words@),
            decreases STACK_DISPLAY_WORDS - i,
        {
            let addr = stack_window_addr(i);
            let bytes: [u8; 4] = match reads[i] {
                Some(b) => b,
                None => [0u8, 0u8, 0u8, 0u8],
            };
            assert(bytes@ =~= read_bytes(reads@[i as int]));
            let in_use = addr >= sp;
            let prev = find_prev(&state.prev_stack, addr);
            proof {
                if fades_bounded(state.prev_stack@) {
                    lemma_find_word_bounded(state.prev_stack@, addr);
                }
            }
            let (fade_in, fade_out): (u8, u8) = match prev {
                None => if in_use {
                    (8, 0)
                } else {
                    (0, 0)
                },
                Some(p) => if p.in_use && !in_use {
                    (0, 8)
                } else {
                    (
                        if p.fade_in > 0 {
                            p.fade_in - 1
                        } else {
                            0
                        },
                        if p.fade_out > 0 {
                            p.fade_out - 1
                        } else {
                            0
                        },
                    )
                },
            };
            words.push(StackWord { addr, bytes, in_use, fade_in, fade_out });
            i = i + 1;
        }
        state.stack = words;
    }

    /// The second half of a step, after the instruction ran. An error stops
    /// the run with that error and nothing else changes. Otherwise the
    /// registers and CPSR are taken over, the output is appended, the stores
    /// are kept in memory, the current line follows the new PC, the stack
    /// snapshot is rebuilt, and the run finishes on `sys_exit` (an idle state
    /// becomes paused otherwise).
    pub fn finish_step(&self, state: &mut EmulatorState, outcome: StepOutcome)
        requires
            outcome.stack_reads@.len() == STACK_DISPLAY_WORDS,
        ensures
            outcome.error is Some ==> {
                &&& final(state).error == outcome.error
                &&& final(state).status == EmulatorStatus::Error
                &&& final(state).regs == old(state).regs
                &&& final(state).cpsr == old(state).cpsr
                &&& final(state).current_line == old(state).current_line
                &&& final(state).stack == old(state).stack
                &&& final(state).output_buffer@ == old(state).output_buffer@
                &&& final(state).memory@ == old(state).memory@
                &&& final(state).same_history(*old(state))
                &&& final(state).same_setup(*old(state))
            },
            outcome.error is None ==> {
                &&& final(state).regs == outcome.regs
                &&& final(state).cpsr == outcome.cpsr
                &&& final(state).output_buffer@ == old(state).output_buffer@ + outcome.output@
                &&& final(state).memory@ == after_stores(old(state).memory@, outcome.stores@)
                &&& final(state).current_line == lookup(
                    self.program().addr_to_line@,
                    outcome.regs[15],
                )
                &&& next_stack_ok(
                    final(state).stack@,
                    outcome.regs[13],
                    old(state).prev_stack@,
                    outcome.stack_reads@,
                )
                &&& descending(final(state).stack@)
                &&& (fades_bounded(old(state).prev_stack@) ==> fades_bounded(final(state).stack@))
                &&& final(state).status == (if outcome.exited {
                    EmulatorStatus::Finished
                } else if old(state).status == EmulatorStatus::Idle {
                    EmulatorStatus::Paused
                } else {
                    old(state).status
                })
                &&& final(state).error == old(state).error
                &&& final(state).same_history(*old(state))
                &&& final(state).same_setup(*old(state))
            },
    {
        let StepOutcome { error, regs, cpsr, output, exited, stores, stack_reads } = outcome;
        if let Some(e) = error {
            state.error = Some(e);
            state.status = EmulatorStatus::Error;
            return ;
        }
        state.regs = regs;
        state.cpsr = cpsr;
        state.output_buffer.append(output.as_str());
        record_stores(&mut state.memory, &stores);
        state.current_line = lookup_line(&self.assembled, regs[15]);
        self.update_stack(state, &stack_reads);
        if exited {
            state.status = EmulatorStatus::Finished;
        } else if state.status == EmulatorStatus::Idle {
            state.status = EmulatorStatus::Paused;
        }
    }
}

proof fn lemma_find_word_bounded(s: Seq<StackWord>, addr: u32)
    requires
        fades_bounded(s),
    ensures
        find_word(s, addr) matches Some(w) ==> w.fade_in <= 8 && w.fade_out <= 8,
    decreases s.len(),
{
    if s.len() > 0 && s[0].addr != addr {
        let t = s.drop_first();
        assert forall|i: int| 0 <= i < t.len() implies #[trigger] t[i].fade_in <= 8
            && t[i].fade_out <= 8 by {
            assert(t[i] == s[i + 1]);
        }
        lemma_find_word_bounded(t, addr);
    }
}

/// After a reset the next step runs the first instruction of the program,
/// unless the program has no code, in which case the run finishes.
pub proof fn lemma_step_after_reset(engine: Engine, before: EmulatorState, after: EmulatorState)
    requires
        engine.is_reset_of(before, after),
    ensures
        after.status != EmulatorStatus::Finished && after.status != EmulatorStatus::Error,
        after.regs[15] == engine.program().base_addr,
        engine.in_code(after.regs[15]) <==> engine.program().code@.len() > 0,
{
    assert(after.regs@[15] == engine.program().base_addr);
}

/// A reset starts the program afresh whatever state it is applied to: the
/// CPSR and its saved copy are zero, so no condition flag is set; every
/// register is zero but SP, which holds the stack top, and PC, which holds the
/// code base; nothing is written yet and nothing is stored; the run is paused
/// without error. Two resets of any two states with the same source agree on
/// all of it.
pub proof fn lemma_reset_starts_afresh(
    engine: Engine,
    before: EmulatorState,
    after: EmulatorState,
    other_before: EmulatorState,
    other_after: EmulatorState,
)
    requires
        engine.is_reset_of(before, after),
        engine.is_reset_of(other_before, other_after),
    ensures
        after.cpsr == 0,
        after.prev_cpsr == 0,
        !CpsrFlags::spec_flags(after.cpsr).n && !CpsrFlags::spec_flags(after.cpsr).z
            && !CpsrFlags::spec_flags(after.cpsr).c && !CpsrFlags::spec_flags(after.cpsr).v,
        after.regs[13] == 0x9000_0000,
        after.regs[15] == engine.program().base_addr,
        forall|i: int| 0 <= i < 16 && i != 13 && i != 15 ==> after.regs[i] == 0,
        after.prev_regs == after.regs,
        after.output_buffer@.len() == 0,
        after.memory@.dom().len() == 0,
        after.stack@.len() == 0,
        after.status == EmulatorStatus::Paused,
        after.error is None,
        after.regs == other_after.regs,
        after.cpsr == other_after.cpsr,
        after.prev_cpsr == other_after.prev_cpsr,
        after.current_line == other_after.current_line,
{
    assert(after.regs@[13] == after.regs[13]);
    assert(after.regs@[15] == after.regs[15]);
    assert forall|i: int| 0 <= i < 16 && i != 13 && i != 15 implies after.regs[i] == 0 by {
        assert(after.regs@[i] == after.regs[i]);
    }
    assert(after.regs@ =~= other_after.regs@);
    vstd::arithmetic::power2::lemma_pow2_pos(31);
    vstd::arithmetic::power2::lemma_pow2_pos(30);
    vstd::arithmetic::power2::lemma_pow2_pos(29);
    vstd::arithmetic::power2::lemma_pow2_pos(28);
}

} // verus!
