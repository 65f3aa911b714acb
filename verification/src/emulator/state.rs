use std::collections::{HashMap, HashSet};
use vstd::prelude::*;

verus! {

broadcast use vstd::std_specs::hash::group_hash_axioms;

/// A snapshot of one stack word (4 bytes, little endian).
#[derive(Clone, Copy, Debug)]
pub struct StackWord {
    /// Address of the word (4-byte aligned).
    pub addr: u32,
    /// The bytes at `addr + 0 .. addr + 3`, least significant first.
    pub bytes: [u8; 4],
    /// `true` at or above SP (allocated), `false` below it.
    pub in_use: bool,
    /// Frames of fade-in animation left after a push (0 = none).
    pub fade_in: u8,
    /// Frames of fade-out animation left after a pop (0 = none).
    pub fade_out: u8,
}

/// The number that four bytes spell in little-endian order.
pub open spec fn le_value(b: Seq<u8>) -> int {
    b[0] + 256 * b[1] + 65536 * b[2] + 16777216 * b[3]
}

impl StackWord {
    /// The word's value: its bytes read in little-endian order.
    pub fn value_u32(&self) -> (r: u32)
        ensures
            r as int == le_value(self.bytes@),
            r % 256 == self.bytes[0],
            (r / 256) % 256 == self.bytes[1],
            (r / 65536) % 256 == self.bytes[2],
            r / 16777216 == self.bytes[3],
    {
        let b0 = self.bytes[0] as u32;
        let b1 = self.bytes[1] as u32;
        let b2 = self.bytes[2] as u32;
        let b3 = self.bytes[3] as u32;
        let r = b0 + b1 * 256 + b2 * 65536 + b3 * 16777216;
        assert(r % 256 == b0 && (r / 256) % 256 == b1 && (r / 65536) % 256 == b2 && r / 16777216
            == b3) by (nonlinear_arith)
            requires
                b0 < 256,
                b1 < 256,
                b2 < 256,
                b3 < 256,
                r == b0 + b1 * 256 + b2 * 65536 + b3 * 16777216,
        ;
        r
    }
}

/// What the emulator is doing.
#[derive(Clone, Copy, Debug, PartialEq, Eq, Structural)]
pub enum EmulatorStatus {
    Idle,
    Paused,
    Running,
    Finished,
    Error,
}

/// The whole emulator state, handed to the panels after every step.
#[derive(Debug)]
pub struct EmulatorState {
    /// The text of each source line.
    pub source_lines: Vec<String>,
    /// The file name shown in the title bar.
    pub file_name: String,
    /// Current registers r0..r15, indexed by register number.
    pub regs: [u32; 16],
    /// Registers before the last step, to highlight changes.
    pub prev_regs: [u32; 16],
    /// Current CPSR.
    pub cpsr: u32,
    /// CPSR before the last step.
    pub prev_cpsr: u32,
    /// Source line (from 0) of the current PC, if known.
    pub current_line: Option<usize>,
    /// Stack snapshot, high addresses first.
    pub stack: Vec<StackWord>,
    /// Stack before the last step, to detect pushes and pops.
    pub prev_stack: Vec<StackWord>,
    /// Lines (from 0) that hold a breakpoint.
    pub breakpoints: HashSet<usize>,
    /// Every byte the program has stored since the last reset, by address:
    /// what memory holds beyond the loaded program.
    pub memory: HashMap<u32, u8>,
    /// What the program wrote with `sys_write`.
    pub output_buffer: String,
    pub status: EmulatorStatus,
    pub error: Option<String>,
}

/// The words are listed from high to low addresses, each address once.
pub open spec fn descending(s: Seq<StackWord>) -> bool {
    forall|i: int, j: int| 0 <= i < j < s.len() ==> s[i].addr > s[j].addr
}

/// No animation counter exceeds its starting value of 8.
pub open spec fn fades_bounded(s: Seq<StackWord>) -> bool {
    forall|i: int| 0 <= i < s.len() ==> #[trigger] s[i].fade_in <= 8 && s[i].fade_out <= 8
}

/// A counter that counts down to 0 and stays there.
pub open spec fn count_down(x: u8) -> u8 {
    if x > 0 {
        (x - 1) as u8
    } else {
        0
    }
}

/// One animation frame applied to a word.
pub open spec fn tick_word(w: StackWord) -> StackWord {
    StackWord { fade_in: count_down(w.fade_in), fade_out: count_down(w.fade_out), ..w }
}

/// A word stays in the snapshot while it is in use or still animating.
pub open spec fn keeps_word(w: StackWord) -> bool {
    w.fade_out > 0 || w.in_use || w.fade_in > 0
}

/// Every word of `s` after one animation frame.
pub open spec fn each_ticked(s: Seq<StackWord>) -> Seq<StackWord> {
    s.map_values(|w: StackWord| tick_word(w))
}

/// The words of `m` that stay in the snapshot, in order.
pub open spec fn kept(m: Seq<StackWord>) -> Seq<StackWord> {
    m.filter(|w: StackWord| keeps_word(w))
}

/// The stack after one animation frame.
pub open spec fn ticked(s: Seq<StackWord>) -> Seq<StackWord> {
    kept(each_ticked(s))
}

/// `bp` with `line` added if it was absent, removed if it was present.
pub open spec fn toggled(bp: Set<usize>, line: usize) -> Set<usize> {
    if bp.contains(line) {
        bp.remove(line)
    } else {
        bp.insert(line)
    }
}

impl EmulatorState {
    /// `self` and `other` hold the same source, file name and breakpoints.
    pub open spec fn same_setup(self, other: Self) -> bool {
        &&& self.source_lines == other.source_lines
        &&& self.file_name == other.file_name
        &&& self.breakpoints@ == other.breakpoints@
    }

    /// `self` and `other` remember the same registers, CPSR and stack from
    /// before the last step.
    pub open spec fn same_history(self, other: Self) -> bool {
        &&& self.prev_regs == other.prev_regs
        &&& self.prev_cpsr == other.prev_cpsr
        &&& self.prev_stack == other.prev_stack
    }

    /// `self` and `other` agree on the machine state, the output and the
    /// error, whatever their status.
    pub open spec fn same_run_but_status(self, other: Self) -> bool {
        &&& self.memory@ == other.memory@
        &&& self.regs == other.regs
        &&& self.cpsr == other.cpsr
        &&& self.current_line == other.current_line
        &&& self.stack == other.stack
        &&& self.output_buffer@ == other.output_buffer@
        &&& self.error == other.error
    }

    /// `self` and `other` agree on everything but the stack snapshot.
    pub open spec fn same_but_stack(self, other: Self) -> bool {
        &&& self.memory@ == other.memory@
        &&& self.source_lines == other.source_lines
        &&& self.file_name == other.file_name
        &&& self.regs == other.regs
        &&& self.prev_regs == other.prev_regs
        &&& self.cpsr == other.cpsr
        &&& self.prev_cpsr == other.prev_cpsr
        &&& self.current_line == other.current_line
        &&& self.prev_stack == other.prev_stack
        &&& self.breakpoints@ == other.breakpoints@
        &&& self.output_buffer@ == other.output_buffer@
        &&& self.status == other.status
        &&& self.error == other.error
    }

    /// `self` and `other` agree on everything but the breakpoints.
    pub open spec fn same_but_breakpoints(self, other: Self) -> bool {
        &&& self.memory@ == other.memory@
        &&& self.source_lines == other.source_lines
        &&& self.file_name == other.file_name
        &&& self.regs == other.regs
        &&& self.prev_regs == other.prev_regs
        &&& self.cpsr == other.cpsr
        &&& self.prev_cpsr == other.prev_cpsr
        &&& self.current_line == other.current_line
        &&& self.stack == other.stack
        &&& self.prev_stack == other.prev_stack
        &&& self.output_buffer@ == other.output_buffer@
        &&& self.status == other.status
        &&& self.error == other.error
    }

    /// A fresh state for a source file: all registers zero, nothing run yet.
    pub fn new(source_lines: Vec<String>, file_name: String) -> (s: Self)
        ensures
            s.source_lines == source_lines,
            s.file_name == file_name,
            s.regs@ == Seq::new(16, |i: int| 0u32),
            s.prev_regs@ == Seq::new(16, |i: int| 0u32),
            s.cpsr == 0,
            s.prev_cpsr == 0,
            s.current_line is None,
            s.stack@.len() == 0,
            s.prev_stack@.len() == 0,
            s.breakpoints@ == Set::<usize>::empty(),
            s.memory@ == Map::<u32, u8>::empty(),
            s.output_buffer@ == Seq::<char>::empty(),
            s.status == EmulatorStatus::Idle,
            s.error is None,
    {
        let s = EmulatorState {
            source_lines,
            file_name,
            regs: [0u32; 16],
            prev_regs: [0u32; 16],
            cpsr: 0,
            prev_cpsr: 0,
            current_line: None,
            stack: Vec::new(),
            prev_stack: Vec::new(),
            breakpoints: HashSet::new(),
            memory: HashMap::new(),
            output_buffer: String::new(),
            status: EmulatorStatus::Idle,
            error: None,
        };
        assert(s.regs@ =~= Seq::new(16, |i: int| 0u32));
        assert(s.prev_regs@ =~= Seq::new(16, |i: int| 0u32));
        s
    }

    /// SP (register 13).
    pub fn sp(&self) -> (r: u32)
        ensures
            r == self.regs[13],
    {
        self.regs[13]
    }

    /// FP (register 11).
    pub fn fp(&self) -> (r: u32)
        ensures
            r == self.regs[11],
    {
        self.regs[11]
    }

    /// PC (register 15).
    pub fn pc(&self) -> (r: u32)
        ensures
            r == self.regs[15],
    {
        self.regs[15]
    }

    /// Removes the breakpoint on `line` if there is one, sets one otherwise.
    pub fn toggle_breakpoint(&mut self, line: usize)
        ensures
            final(self).breakpoints@ == toggled(old(self).breakpoints@, line),
            final(self).same_but_breakpoints(*old(self)),
    {
        if self.breakpoints.contains(&line) {
            self.breakpoints.remove(&line);
        } else {
            self.breakpoints.insert(line);
        }
    }

    /// Advances the push/pop animation by one frame: every counter that is
    /// running counts down by one, then the words that are neither in use nor
    /// animating any more leave the snapshot.
    pub fn tick_animation(&mut self)
        ensures
            final(self).stack@ == ticked(old(self).stack@),
            final(self).same_but_stack(*old(self)),
    {
        let ghost s = self.stack@;
        let mut kept: Vec<StackWord> = Vec::new();
        let n = self.stack.len();
        let mut i: usize = 0;
        while i < n
            invariant
                n == s.len(),
                s == self.stack@,
                i <= n,
                kept@ == ticked(s.take(i as int)),
            decreases n - i,
        {
            let w = self.stack[i];
            let t = StackWord {
                fade_in: if w.fade_in > 0 {
                    w.fade_in - 1
                } else {
                    0
                },
                fade_out: if w.fade_out > 0 {
                    w.fade_out - 1
                } else {
                    0
                },
                ..w
            };
            proof {
                assert(t == tick_word(s[i as int]));
                assert(each_ticked(s.take(i + 1)) =~= each_ticked(s.take(i as int)).push(t));
                each_ticked(s.take(i as int)).lemma_filter_push(t, |w: StackWord| keeps_word(w));
            }
            if t.fade_out > 0 || t.in_use || t.fade_in > 0 {
                kept.push(t);
            }
            i = i + 1;
        }
        assert(s.take(n as int) =~= s);
        self.stack = kept;
    }
}

/// Toggling the same line twice leaves the breakpoints as they were.
pub proof fn lemma_toggle_twice(bp: Set<usize>, line: usize)
    ensures
        toggled(toggled(bp, line), line) == bp,
{
    if bp.contains(line) {
        assert(bp.remove(line).insert(line) =~= bp);
    } else {
        assert(bp.insert(line).remove(line) =~= bp);
    }
}

/// An animation frame never drops a word that is in use: it stays, with its
/// counters counted down.
pub proof fn lemma_tick_keeps_in_use(s: Seq<StackWord>, i: int)
    requires
        0 <= i < s.len(),
        s[i].in_use,
    ensures
        ticked(s).contains(tick_word(s[i])),
{
    let m = each_ticked(s);
    assert(m[i] == tick_word(s[i]));
    m.lemma_filter_contains_rev(|w: StackWord| keeps_word(w), tick_word(s[i]));
}

proof fn lemma_kept_members(m: Seq<StackWord>)
    ensures
        forall|k: int| 0 <= k < kept(m).len() ==> m.contains(#[trigger] kept(m)[k]),
    decreases m.len(),
{
    reveal_with_fuel(Seq::<_>::filter, 1);
    if m.len() > 0 {
        let d = m.drop_last();
        lemma_kept_members(d);
        let fd = kept(d);
        assert forall|k: int| 0 <= k < fd.len() implies m.contains(#[trigger] fd[k]) by {
            let j = choose|j: int| 0 <= j < d.len() && d[j] == fd[k];
            assert(m[j] == d[j]);
        }
        assert(m[m.len() - 1] == m.last());
        if keeps_word(m.last()) {
            assert(kept(m) == fd.push(m.last()));
        } else {
            assert(kept(m) == fd);
        }
    }
}

proof fn lemma_kept_descending(m: Seq<StackWord>)
    requires
        descending(m),
    ensures
        descending(kept(m)),
        forall|k: int| 0 <= k < kept(m).len() ==> m.contains(#[trigger] kept(m)[k]),
    decreases m.len(),
{
    reveal_with_fuel(Seq::<_>::filter, 1);
    if m.len() > 0 {
        let d = m.drop_last();
        assert(descending(d));
        lemma_kept_descending(d);
        let fd = kept(d);
        assert forall|k: int| 0 <= k < fd.len() implies #[trigger] fd[k].addr > m.last().addr
            && m.contains(fd[k]) by {
            assert(d.contains(fd[k]));
            let j = choose|j: int| 0 <= j < d.len() && d[j] == fd[k];
            assert(m[j] == d[j]);
        }
        assert(m[m.len() - 1] == m.last());
        if keeps_word(m.last()) {
            assert(kept(m) == fd.push(m.last()));
        } else {
            assert(kept(m) == fd);
        }
    }
}

/// An animation frame keeps the snapshot ordered from high to low addresses.
pub proof fn lemma_tick_keeps_order(s: Seq<StackWord>)
    requires
        descending(s),
    ensures
        descending(ticked(s)),
{
    let m = each_ticked(s);
    assert(descending(m));
    lemma_kept_descending(m);
}

/// An animation frame keeps every counter within its starting value.
pub proof fn lemma_tick_keeps_fades_bounded(s: Seq<StackWord>)
    requires
        fades_bounded(s),
    ensures
        fades_bounded(ticked(s)),
{
    let m = each_ticked(s);
    assert(fades_bounded(m));
    assert forall|i: int| 0 <= i < kept(m).len() implies #[trigger] kept(m)[i].fade_in <= 8
        && kept(m)[i].fade_out <= 8 by {
        lemma_kept_members(m);
        let j = choose|j: int| 0 <= j < m.len() && m[j] == kept(m)[i];
        assert(m[j].fade_in <= 8);
    }
}

/// A store the program made: `size` bytes of `value`, least significant
/// first, at `addr`.
#[derive(Clone, Copy, Debug)]
pub struct MemStore {
    pub addr: u64,
    pub size: usize,
    pub value: u64,
}

/// How many bytes of a store are kept (a value has at most 8).
pub open spec fn store_len(s: MemStore) -> int {
    if s.size < 8 {
        s.size as int
    } else {
        8
    }
}

/// The first `k` bytes of store `s` cover address `a`.
pub open spec fn store_covers(s: MemStore, a: u32, k: int) -> bool {
    s.addr <= a && a < s.addr + k
}

/// The byte that store `s` puts at address `a`.
pub open spec fn store_byte(s: MemStore, a: u32) -> u8 {
    ((s.value >> ((8 * (a - s.addr)) as u64)) & 0xff) as u8
}

/// Memory `m` after the first `k` bytes of store `s`.
pub open spec fn after_store_bytes(m: Map<u32, u8>, s: MemStore, k: int) -> Map<u32, u8> {
    Map::new(
        |a: u32| m.contains_key(a) || store_covers(s, a, k),
        |a: u32|
            if store_covers(s, a, k) {
                store_byte(s, a)
            } else {
                m[a]
            },
    )
}

/// Memory `m` after store `s`.
pub open spec fn after_store(m: Map<u32, u8>, s: MemStore) -> Map<u32, u8> {
    after_store_bytes(m, s, store_len(s))
}

/// Memory `m` after the stores `ss`, in order.
pub open spec fn after_stores(m: Map<u32, u8>, ss: Seq<MemStore>) -> Map<u32, u8>
    decreases ss.len(),
{
    if ss.len() == 0 {
        m
    } else {
        after_store(after_stores(m, ss.drop_last()), ss.last())
    }
}

/// Records one store in `memory`.
pub fn record_store(memory: &mut HashMap<u32, u8>, s: MemStore)
    ensures
        final(memory)@ == after_store(old(memory)@, s),
{
    let n: usize = if s.size < 8 {
        s.size
    } else {
        8
    };
    let mut k: usize = 0;
    assert(memory@ =~= after_store_bytes(old(memory)@, s, 0));
    while k < n
        invariant
            n == store_len(s),
            k <= n,
            memory@ == after_store_bytes(old(memory)@, s, k as int),
        decreases n - k,
    {
        if s.addr <= 0xFFFF_FFFF && s.addr + (k as u64) <= 0xFFFF_FFFF {
            let a = (s.addr + (k as u64)) as u32;
            let byte = ((s.value >> ((8 * k) as u64)) & 0xff) as u8;
            assert(byte == store_byte(s, a));
            memory.insert(a, byte);
            assert(memory@ =~= after_store_bytes(old(memory)@, s, k + 1));
        } else {
            assert(memory@ =~= after_store_bytes(old(memory)@, s, k + 1));
        }
        k = k + 1;
    }
}

/// Records the stores of one instruction in `memory`, in order.
pub fn record_stores(memory: &mut HashMap<u32, u8>, stores: &Vec<MemStore>)
    ensures
        final(memory)@ == after_stores(old(memory)@, stores@),
{
    let mut i: usize = 0;
    assert(stores@.take(0) =~= Seq::<MemStore>::empty());
    while i < stores.len()
        invariant
            i <= stores@.len(),
            memory@ == after_stores(old(memory)@, stores@.take(i as int)),
        decreases stores@.len() - i,
    {
        record_store(memory, stores[i]);
        assert(stores@.take(i + 1).drop_last() =~= stores@.take(i as int));
        i = i + 1;
    }
    assert(stores@.take(stores@.len() as int) =~= stores@);
}

/// `HashSet::clone` on a set of line numbers. Claimed, as the standard
/// library documents for `Clone`: the copy holds the same numbers.
#[verifier::external_body]
fn clone_lines(s: &HashSet<usize>) -> (r: HashSet<usize>)
    ensures
        r@ == s@,
{
    s.clone()
}

pub(crate) fn clone_words(words: &Vec<StackWord>) -> (r: Vec<StackWord>)
    ensures
        r@ == words@,
{
    let mut r: Vec<StackWord> = Vec::new();
    let mut i: usize = 0;
    while i < words.len()
        invariant
            i <= words@.len(),
            r@ == words@.take(i as int),
        decreases words@.len() - i,
    {
        r.push(words[i]);
        i = i + 1;
        assert(r@ =~= words@.take(i as int));
    }
    assert(r@ =~= words@);
    r
}

fn clone_text_lines(lines: &Vec<String>) -> (r: Vec<String>)
    ensures
        r@.len() == lines@.len(),
        forall|i: int| 0 <= i < lines@.len() ==> #[trigger] r@[i]@ == lines@[i]@,
{
    let mut r: Vec<String> = Vec::new();
    let mut i: usize = 0;
    while i < lines.len()
        invariant
            i <= lines@.len(),
            r@.len() == i,
            forall|j: int| 0 <= j < i ==> #[trigger] r@[j]@ == lines@[j]@,
        decreases lines@.len() - i,
    {
        r.push(lines[i].clone());
        i = i + 1;
    }
    r
}

impl Clone for EmulatorState {
    /// A copy of the state: the same text, registers, snapshot, breakpoints,
    /// memory, output, status and error.
    fn clone(&self) -> (r: Self)
        ensures
            r.source_lines@.len() == self.source_lines@.len(),
            forall|i: int|
                0 <= i < self.source_lines@.len() ==> #[trigger] r.source_lines@[i]@
                    == self.source_lines@[i]@,
            r.file_name@ == self.file_name@,
            r.regs == self.regs,
            r.prev_regs == self.prev_regs,
            r.cpsr == self.cpsr,
            r.prev_cpsr == self.prev_cpsr,
            r.current_line == self.current_line,
            r.stack@ == self.stack@,
            r.prev_stack@ == self.prev_stack@,
            r.breakpoints@ == self.breakpoints@,
            r.memory@ == self.memory@,
            r.output_buffer@ == self.output_buffer@,
            r.status == self.status,
            r.error matches Some(e) ==> self.error matches Some(f) && e@ == f@,
            r.error is None <==> self.error is None,
    {
        EmulatorState {
            source_lines: clone_text_lines(&self.source_lines),
            file_name: self.file_name.clone(),
            regs: self.regs,
            prev_regs: self.prev_regs,
            cpsr: self.cpsr,
            prev_cpsr: self.prev_cpsr,
            current_line: self.current_line,
            stack: clone_words(&self.stack),
            prev_stack: clone_words(&self.prev_stack),
            breakpoints: clone_lines(&self.breakpoints),
            memory: self.memory.clone(),
            output_buffer: self.output_buffer.clone(),
            status: self.status,
            error: match &self.error {
                Some(e) => Some(e.clone()),
                None => None,
            },
        }
    }
}

/// A counter after `k` frames.
pub open spec fn counted_down(x: u8, k: nat) -> u8 {
    if x > k {
        (x - k) as u8
    } else {
        0
    }
}

/// A word after `k` animation frames.
pub open spec fn aged(w: StackWord, k: nat) -> StackWord {
    StackWord { fade_in: counted_down(w.fade_in, k), fade_out: counted_down(w.fade_out, k), ..w }
}

/// A word is still in the snapshot after `k` frames.
pub open spec fn survives(w: StackWord, k: nat) -> bool {
    k == 0 || w.in_use || w.fade_in > k || w.fade_out > k
}

/// The snapshot after `k` frames, word by word.
pub open spec fn frames(s: Seq<StackWord>, k: nat) -> Seq<StackWord>
    decreases s.len(),
{
    if s.len() == 0 {
        s
    } else {
        let r = frames(s.drop_last(), k);
        if survives(s.last(), k) {
            r.push(aged(s.last(), k))
        } else {
            r
        }
    }
}

/// The snapshot after `n` calls of `tick_animation`.
pub open spec fn ticked_times(s: Seq<StackWord>, n: nat) -> Seq<StackWord>
    decreases n,
{
    if n == 0 {
        s
    } else {
        ticked(ticked_times(s, (n - 1) as nat))
    }
}

/// The words in use, with their counters at zero: where the animation ends.
pub open spec fn settled(s: Seq<StackWord>) -> Seq<StackWord>
    decreases s.len(),
{
    if s.len() == 0 {
        s
    } else {
        let r = settled(s.drop_last());
        if s.last().in_use {
            r.push(StackWord { fade_in: 0, fade_out: 0, ..s.last() })
        } else {
            r
        }
    }
}

/// Every counter of `s` is at most `n`.
pub open spec fn fades_at_most(s: Seq<StackWord>, n: nat) -> bool {
    forall|i: int| 0 <= i < s.len() ==> #[trigger] s[i].fade_in <= n && s[i].fade_out <= n
}

proof fn lemma_ticked_push(r: Seq<StackWord>, x: StackWord)
    ensures
        ticked(r.push(x)) == (if keeps_word(tick_word(x)) {
            ticked(r).push(tick_word(x))
        } else {
            ticked(r)
        }),
{
    assert(each_ticked(r.push(x)) =~= each_ticked(r).push(tick_word(x)));
    each_ticked(r).lemma_filter_push(tick_word(x), |w: StackWord| keeps_word(w));
}

proof fn lemma_frames_zero(s: Seq<StackWord>)
    ensures
        frames(s, 0) == s,
    decreases s.len(),
{
    if s.len() > 0 {
        lemma_frames_zero(s.drop_last());
        assert(aged(s.last(), 0) == s.last());
        assert(s.drop_last().push(s.last()) =~= s);
    }
}

proof fn lemma_frames_step(s: Seq<StackWord>, k: nat)
    ensures
        ticked(frames(s, k)) == frames(s, k + 1),
    decreases s.len(),
{
    if s.len() == 0 {
        reveal_with_fuel(Seq::<_>::filter, 1);
        assert(ticked(frames(s, k)) =~= frames(s, k + 1));
    } else {
        let d = s.drop_last();
        let w = s.last();
        lemma_frames_step(d, k);
        if survives(w, k) {
            lemma_ticked_push(frames(d, k), aged(w, k));
            assert(tick_word(aged(w, k)) == aged(w, (k + 1) as nat));
            assert(keeps_word(aged(w, (k + 1) as nat)) == survives(w, (k + 1) as nat));
        } else {
            assert(!survives(w, (k + 1) as nat));
        }
    }
}

proof fn lemma_ticked_times_frames(s: Seq<StackWord>, n: nat)
    ensures
        ticked_times(s, n) == frames(s, n),
    decreases n,
{
    if n == 0 {
        lemma_frames_zero(s);
    } else {
        lemma_ticked_times_frames(s, (n - 1) as nat);
        lemma_frames_step(s, (n - 1) as nat);
    }
}

proof fn lemma_frames_settled(s: Seq<StackWord>, n: nat)
    requires
        n >= 1,
        fades_at_most(s, n),
    ensures
        frames(s, n) == settled(s),
    decreases s.len(),
{
    if s.len() > 0 {
        let d = s.drop_last();
        assert forall|i: int| 0 <= i < d.len() implies #[trigger] d[i].fade_in <= n
            && d[i].fade_out <= n by {
            assert(d[i] == s[i]);
        }
        lemma_frames_settled(d, n);
        assert(s.last() == s[s.len() - 1]);
        assert(aged(s.last(), n) == StackWord { fade_in: 0, fade_out: 0, ..s.last() });
    }
}

/// Once as many animation frames have passed as the largest counter (and at
/// least one), the snapshot holds exactly the words in use, in order, with
/// their counters at zero, and further frames leave it unchanged.
pub proof fn lemma_ticks_settle(s: Seq<StackWord>, n: nat)
    requires
        n >= 1,
        fades_at_most(s, n),
    ensures
        ticked_times(s, n) == settled(s),
        ticked(settled(s)) == settled(s),
{
    lemma_ticked_times_frames(s, n);
    lemma_frames_settled(s, n);
    lemma_frames_step(s, n);
    assert forall|i: int| 0 <= i < s.len() implies #[trigger] s[i].fade_in <= n + 1
        && s[i].fade_out <= n + 1 by {}
    lemma_frames_settled(s, n + 1);
}

/// A store is read back: each address it covers holds the store's byte for
/// it (least significant byte at the lowest address), and every other
/// address keeps what it held.
pub proof fn lemma_store_readback(m: Map<u32, u8>, s: MemStore, a: u32)
    ensures
        store_covers(s, a, store_len(s)) ==> after_store(m, s).contains_key(a) && after_store(
            m,
            s,
        )[a] == store_byte(s, a),
        !store_covers(s, a, store_len(s)) ==> after_store(m, s).contains_key(a)
            == m.contains_key(a),
        !store_covers(s, a, store_len(s)) && m.contains_key(a) ==> after_store(m, s)[a] == m[a],
{
}

} // verus!
