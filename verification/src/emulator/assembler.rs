use std::collections::HashMap;
use vstd::prelude::*;

use crate::emulator::memory::CODE_BASE;
use crate::text::{
    chars_of, first_index, has_prefix, lemma_first_index_at, lemma_first_index_none, range_contains, range_find, range_starts_with, trim,
    trim_range,
};

verus! {

broadcast use vstd::std_specs::hash::group_hash_axioms;

/// The result of assembling a source file.
pub struct AssembledProgram {
    /// The machine code.
    pub code: Vec<u8>,
    /// Address of each instruction -> its source line (counted from 0).
    pub addr_to_line: HashMap<u32, usize>,
    /// Address at which the code is loaded.
    pub base_addr: u32,
}

/// A trimmed line that produces no machine code of its own: an empty line, a
/// comment, or one of the assembler directives that the line mapping skips.
pub open spec fn is_non_code(t: Seq<char>) -> bool {
    ||| t.len() == 0
    ||| has_prefix(t, "@"@)
    ||| has_prefix(t, "//"@)
    ||| has_prefix(t, ".syntax"@)
    ||| has_prefix(t, ".arch"@)
    ||| has_prefix(t, ".cpu"@)
    ||| has_prefix(t, ".thumb"@)
    ||| has_prefix(t, ".arm"@)
    ||| has_prefix(t, ".global"@)
    ||| has_prefix(t, ".globl"@)
    ||| has_prefix(t, ".text"@)
    ||| has_prefix(t, ".data"@)
    ||| has_prefix(t, ".section"@)
    ||| has_prefix(t, ".equ"@)
    ||| has_prefix(t, ".set"@)
    ||| has_prefix(t, ".align"@)
    ||| has_prefix(t, ".word"@)
    ||| has_prefix(t, ".byte"@)
    ||| has_prefix(t, ".space"@)
    ||| has_prefix(t, ".string"@)
    ||| has_prefix(t, ".ascii"@)
    ||| has_prefix(t, ".end"@)
}

/// A trimmed line that is a label alone, such as `main:`.
pub open spec fn is_bare_label(t: Seq<char>) -> bool {
    t.len() > 0 && t.last() == ':' && !t.contains(' ')
}

/// The text of a source line that is assembled on its own to find its
/// address: the trimmed line, or what follows its first `:` (trimmed) where it
/// has one; `None` for lines that produce no code.
pub open spec fn instruction_text_of(line: Seq<char>) -> Option<Seq<char>> {
    let t = trim(line);
    if is_non_code(t) || is_bare_label(t) {
        None
    } else {
        match first_index(t, ':') {
            Some(p) => {
                let after = trim(t.subrange(p + 1, t.len() as int));
                if after.len() == 0 {
                    None
                } else {
                    Some(after)
                }
            },
            None => Some(t),
        }
    }
}

proof fn lemma_not_prefix(t: Seq<char>, p: Seq<char>)
    requires
        t.len() > 0,
        p.len() > 0,
        t[0] != p[0],
    ensures
        !has_prefix(t, p),
{
    if has_prefix(t, p) {
        assert(t.subrange(0, p.len() as int)[0] == t[0]);
    }
}

proof fn lemma_not_non_code(t: Seq<char>)
    requires
        t.len() > 0,
        t[0] != '@',
        t[0] != '/',
        t[0] != '.',
    ensures
        !is_non_code(t),
{
    reveal_strlit("@");
    reveal_strlit("//");
    reveal_strlit(".syntax");
    reveal_strlit(".arch");
    reveal_strlit(".cpu");
    reveal_strlit(".thumb");
    reveal_strlit(".arm");
    reveal_strlit(".global");
    reveal_strlit(".globl");
    reveal_strlit(".text");
    reveal_strlit(".data");
    reveal_strlit(".section");
    reveal_strlit(".equ");
    reveal_strlit(".set");
    reveal_strlit(".align");
    reveal_strlit(".word");
    reveal_strlit(".byte");
    reveal_strlit(".space");
    reveal_strlit(".string");
    reveal_strlit(".ascii");
    reveal_strlit(".end");
    lemma_not_prefix(t, "@"@);
    lemma_not_prefix(t, "//"@);
    lemma_not_prefix(t, ".syntax"@);
    lemma_not_prefix(t, ".arch"@);
    lemma_not_prefix(t, ".cpu"@);
    lemma_not_prefix(t, ".thumb"@);
    lemma_not_prefix(t, ".arm"@);
    lemma_not_prefix(t, ".global"@);
    lemma_not_prefix(t, ".globl"@);
    lemma_not_prefix(t, ".text"@);
    lemma_not_prefix(t, ".data"@);
    lemma_not_prefix(t, ".section"@);
    lemma_not_prefix(t, ".equ"@);
    lemma_not_prefix(t, ".set"@);
    lemma_not_prefix(t, ".align"@);
    lemma_not_prefix(t, ".word"@);
    lemma_not_prefix(t, ".byte"@);
    lemma_not_prefix(t, ".space"@);
    lemma_not_prefix(t, ".string"@);
    lemma_not_prefix(t, ".ascii"@);
    lemma_not_prefix(t, ".end"@);
}

/// A source line is assembled as it stands (trimmed) whenever, once trimmed,
/// it is not empty, does not start with `@`, `/` or `.` (comments and
/// directives), and holds no `:` (no label). So every instruction line, such
/// as `b loop`, `bl func` or `bx lr`, gets an address of its own.
pub proof fn lemma_instruction_line_is_code(line: Seq<char>)
    requires
        trim(line).len() > 0,
        trim(line)[0] != '@',
        trim(line)[0] != '/',
        trim(line)[0] != '.',
        forall|j: int| 0 <= j < trim(line).len() ==> trim(line)[j] != ':',
    ensures
        instruction_text_of(line) == Some(trim(line)),
{
    let t = trim(line);
    lemma_not_non_code(t);
    assert(t.last() == t[t.len() - 1]);
    lemma_first_index_none(t, ':');
}

/// A line with a label in front of an instruction, such as `loop: b loop`,
/// is assembled as what follows its first `:`, trimmed.
pub proof fn lemma_labelled_line_is_code(line: Seq<char>, p: int)
    requires
        0 <= p < trim(line).len(),
        trim(line)[p] == ':',
        forall|j: int| 0 <= j < p ==> trim(line)[j] != ':',
        trim(line)[0] != '@',
        trim(line)[0] != '/',
        trim(line)[0] != '.',
        trim(line)[trim(line).len() - 1] != ':',
        trim(trim(line).subrange(p + 1, trim(line).len() as int)).len() > 0,
    ensures
        instruction_text_of(line) == Some(trim(trim(line).subrange(p + 1, trim(line).len() as int))),
{
    let t = trim(line);
    lemma_not_non_code(t);
    assert(t.last() == t[t.len() - 1]);
    lemma_first_index_at(t, ':', p);
}

/// Empty lines, `@` and `//` comments, and bare labels such as `main:` get no
/// address.
pub proof fn lemma_non_code_lines(line: Seq<char>)
    ensures
        trim(line).len() == 0 ==> instruction_text_of(line) is None,
        trim(line).len() > 0 && trim(line)[0] == '@' ==> instruction_text_of(line) is None,
        trim(line).len() > 1 && trim(line)[0] == '/' && trim(line)[1] == '/' ==> instruction_text_of(
            line,
        ) is None,
        trim(line).len() > 0 && trim(line)[trim(line).len() - 1] == ':' && (forall|j: int|
            0 <= j < trim(line).len() ==> trim(line)[j] != ' ') ==> instruction_text_of(line) is None,
{
    let t = trim(line);
    reveal_strlit("@");
    reveal_strlit("//");
    if t.len() > 0 && t[0] == '@' {
        assert(t.subrange(0, 1) =~= "@"@);
    }
    if t.len() > 1 && t[0] == '/' && t[1] == '/' {
        assert(t.subrange(0, 2) =~= "//"@);
    }
    if t.len() > 0 && t[t.len() - 1] == ':' && (forall|j: int| 0 <= j < t.len() ==> t[j] != ' ') {
        assert(t.last() == t[t.len() - 1]);
        assert(!t.contains(' '));
    }
}

fn starts_with_non_code(cs: &Vec<char>, a: usize, b: usize) -> (r: bool)
    requires
        a <= b <= cs@.len(),
    ensures
        r == is_non_code(cs@.subrange(a as int, b as int)),
{
    a == b || range_starts_with(cs, a, b, "@") || range_starts_with(cs, a, b, "//")
        || range_starts_with(cs, a, b, ".syntax") || range_starts_with(cs, a, b, ".arch")
        || range_starts_with(cs, a, b, ".cpu") || range_starts_with(cs, a, b, ".thumb")
        || range_starts_with(cs, a, b, ".arm") || range_starts_with(cs, a, b, ".global")
        || range_starts_with(cs, a, b, ".globl") || range_starts_with(cs, a, b, ".text")
        || range_starts_with(cs, a, b, ".data") || range_starts_with(cs, a, b, ".section")
        || range_starts_with(cs, a, b, ".equ") || range_starts_with(cs, a, b, ".set")
        || range_starts_with(cs, a, b, ".align") || range_starts_with(cs, a, b, ".word")
        || range_starts_with(cs, a, b, ".byte") || range_starts_with(cs, a, b, ".space")
        || range_starts_with(cs, a, b, ".string") || range_starts_with(cs, a, b, ".ascii")
        || range_starts_with(cs, a, b, ".end")
}

/// The part of a source line to assemble on its own, as a slice of the line;
/// `None` where the line produces no machine code.
pub fn instruction_text(line: &str) -> (r: Option<&str>)
    ensures
        match r {
            Some(x) => instruction_text_of(line@) == Some(x@),
            None => instruction_text_of(line@) is None,
        },
{
    let cs = chars_of(line);
    let n = cs.len();
    assert(cs@.subrange(0, n as int) =~= line@);
    let (a, b) = trim_range(&cs, 0, n);
    let ghost t = cs@.subrange(a as int, b as int);
    if starts_with_non_code(&cs, a, b) {
        return None;
    }
    if cs[b - 1] == ':' && !range_contains(&cs, a, b, ' ') {
        assert(t.last() == cs@[b - 1]);
        return None;
    }
    assert(t.last() == cs@[b - 1]);
    match range_find(&cs, a, b, ':') {
        Some(p) => {
            let (c, d) = trim_range(&cs, a + p + 1, b);
            assert(t.subrange(p + 1, t.len() as int) =~= cs@.subrange(a + p + 1, b as int));
            if c == d {
                None
            } else {
                Some(line.substring_char(c, d))
            }
        },
        None => Some(line.substring_char(a, b)),
    }
}

/// Builds the address -> source line mapping while the lines are assembled one
/// by one: each line that produced code is recorded at the current address,
/// which then advances by the size of that code.
pub struct LineMap {
    cursor: u32,
    lines: HashMap<u32, usize>,
}

impl LineMap {
    /// The address at which the next line's code will be placed.
    pub closed spec fn at(self) -> u32 {
        self.cursor
    }

    /// The recorded address -> line entries.
    pub closed spec fn entries(self) -> Map<u32, usize> {
        self.lines@
    }

    #[verifier::type_invariant]
    closed spec fn inv(self) -> bool {
        &&& CODE_BASE <= self.cursor
        &&& forall|k: u32| #[trigger] self.lines@.contains_key(k) ==> CODE_BASE <= k < self.cursor
    }

    /// Every recorded address lies between the code base and the current
    /// address, so the next line is never placed on a recorded one.
    pub open spec fn keys_below_cursor(self) -> bool {
        &&& CODE_BASE <= self.at()
        &&& forall|k: u32| #[trigger]
            self.entries().contains_key(k) ==> CODE_BASE <= k < self.at()
    }

    /// An empty mapping positioned at the code base.
    pub fn new() -> (m: Self)
        ensures
            m.at() == CODE_BASE,
            m.entries() == Map::<u32, usize>::empty(),
            m.keys_below_cursor(),
    {
        LineMap { cursor: CODE_BASE as u32, lines: HashMap::new() }
    }

    /// The address at which the next line's code will be placed.
    pub fn cursor(&self) -> (r: u32)
        ensures
            r == self.at(),
            self.keys_below_cursor(),
    {
        proof {
            use_type_invariant(self);
        }
        self.cursor
    }

    /// Records that line `line_idx` assembled to `len` bytes at the current
    /// address. A line that produced no bytes is not recorded.
    pub fn record(&mut self, line_idx: usize, len: u32)
        requires
            old(self).at() + len <= u32::MAX,
        ensures
            len == 0 ==> final(self).at() == old(self).at() && final(self).entries() == old(
                self,
            ).entries(),
            len > 0 ==> final(self).at() == old(self).at() + len && final(self).entries() == old(
                self,
            ).entries().insert(old(self).at(), line_idx),
            len > 0 ==> !old(self).entries().contains_key(old(self).at()),
            final(self).keys_below_cursor(),
    {
        proof {
            use_type_invariant(&*self);
        }
        if len > 0 {
            let at = self.cursor;
            self.cursor = at + len;
            let mut lines = HashMap::new();
            std::mem::swap(&mut lines, &mut self.lines);
            lines.insert(at, line_idx);
            self.lines = lines;
        }
        proof {
            use_type_invariant(&*self);
        }
    }

    /// Completes the program with its machine code.
    pub fn finish(self, code: Vec<u8>) -> (p: AssembledProgram)
        ensures
            p.code@ == code@,
            p.addr_to_line@ == self.entries(),
            p.base_addr == CODE_BASE,
    {
        AssembledProgram { code, addr_to_line: self.lines, base_addr: CODE_BASE as u32 }
    }
}

} // verus!
