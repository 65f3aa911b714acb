use vstd::prelude::*;

use crate::emulator::state::{le_value, EmulatorState, StackWord};
use crate::text::{
    hex_string, hex_text, lemma_as_i32, lemma_hex_text, lemma_signed_text, pad_left, signed_digits,
    signed_string, signed_value, trim_start, value_of,
};

verus! {

/// Which highlight the address of a stack row gets (SP takes precedence over FP).
#[derive(Clone, Copy, Debug, PartialEq, Eq, Structural)]
pub enum RowMark {
    Sp,
    Fp,
    InUse,
    Free,
}

/// The note at the end of a stack row.
#[derive(Clone, Copy, Debug, PartialEq, Eq, Structural)]
pub enum Annotation {
    /// `← SP`
    Sp,
    /// `← FP`
    Fp,
    /// A free word that holds zero.
    Zero,
    /// A free word that holds something else.
    Uninit,
    /// A word in use, neither SP nor FP.
    Blank,
}

/// The animation a stack row is in, with its frames left.
#[derive(Clone, Copy, Debug, PartialEq, Eq, Structural)]
pub enum Fade {
    In(u8),
    Out(u8),
    Steady,
}

/// Everything about a stack row but its colours.
pub struct StackRow {
    pub word: StackWord,
    /// The word's value (little endian).
    pub value: u32,
    pub mark: RowMark,
    pub annotation: Annotation,
    pub fade: Fade,
    /// The address is shown in bold (SP or FP).
    pub bold: bool,
    /// The address in hexadecimal and two spaces.
    pub addr_text: String,
    /// The value in hexadecimal and two spaces.
    pub value_text: String,
    /// The four bytes, most significant (B3) first, each in hexadecimal and
    /// spaced out to its column.
    pub byte_texts: Vec<String>,
    /// The value read as a signed number, right-aligned in ten columns, and two spaces.
    pub decimal_text: String,
    /// The note at the end of the row.
    pub annotation_text: String,
}

/// The text of a note.
pub open spec fn annotation_text_of(a: Annotation) -> Seq<char> {
    match a {
        Annotation::Sp => "← SP"@,
        Annotation::Fp => "← FP"@,
        Annotation::Zero => "[zero]"@,
        Annotation::Uninit => "(uninit)"@,
        Annotation::Blank => ""@,
    }
}

/// The text of the `k`-th byte column (`k` = 0 shows B3, the most
/// significant byte; `k` = 3 shows B0, the least significant).
pub open spec fn byte_text_of(w: StackWord, k: int) -> Seq<char> {
    hex_text(w.bytes[3 - k] as nat, 2) + (if k == 3 {
        "     "@
    } else {
        "    "@
    })
}

/// The texts of row `r` for word `w`.
pub open spec fn row_texts(r: StackRow, w: StackWord, sp: u32, fp: u32) -> bool {
    &&& r.addr_text@ == hex_text(w.addr as nat, 8) + "  "@
    &&& r.value_text@ == hex_text(le_value(w.bytes@) as nat, 8) + "  "@
    &&& r.byte_texts@.len() == 4
    &&& forall|k: int| 0 <= k < 4 ==> #[trigger] r.byte_texts@[k]@ == byte_text_of(w, k)
    &&& r.decimal_text@ == pad_left(signed_digits((le_value(w.bytes@) as i32) as int), 10, ' ')
        + "  "@
    &&& r.annotation_text@ == annotation_text_of(annotation_of(w, sp, fp))
}

pub open spec fn mark_of(w: StackWord, sp: u32, fp: u32) -> RowMark {
    if w.addr == sp {
        RowMark::Sp
    } else if w.addr == fp {
        RowMark::Fp
    } else if w.in_use {
        RowMark::InUse
    } else {
        RowMark::Free
    }
}

pub open spec fn annotation_of(w: StackWord, sp: u32, fp: u32) -> Annotation {
    if w.addr == sp {
        Annotation::Sp
    } else if w.addr == fp {
        Annotation::Fp
    } else if !w.in_use {
        if le_value(w.bytes@) == 0 {
            Annotation::Zero
        } else {
            Annotation::Uninit
        }
    } else {
        Annotation::Blank
    }
}

pub open spec fn fade_of(w: StackWord) -> Fade {
    if w.fade_in > 0 {
        Fade::In(w.fade_in)
    } else if w.fade_out > 0 {
        Fade::Out(w.fade_out)
    } else {
        Fade::Steady
    }
}

/// `r` is the row of word `w` with SP `sp` and FP `fp`.
pub open spec fn row_of(r: StackRow, w: StackWord, sp: u32, fp: u32) -> bool {
    &&& r.word == w
    &&& r.value == le_value(w.bytes@)
    &&& r.mark == mark_of(w, sp, fp)
    &&& r.annotation == annotation_of(w, sp, fp)
    &&& r.fade == fade_of(w)
    &&& r.bold == (w.addr == sp || w.addr == fp)
    &&& row_texts(r, w, sp, fp)
}

/// The row of one stack word.
pub fn build_row(word: &StackWord, sp: u32, fp: u32) -> (r: StackRow)
    ensures
        row_of(r, *word, sp, fp),
{
    let value = word.value_u32();
    let mark = if word.addr == sp {
        RowMark::Sp
    } else if word.addr == fp {
        RowMark::Fp
    } else if word.in_use {
        RowMark::InUse
    } else {
        RowMark::Free
    };
    let fade = if word.fade_in > 0 {
        Fade::In(word.fade_in)
    } else if word.fade_out > 0 {
        Fade::Out(word.fade_out)
    } else {
        Fade::Steady
    };
    let annotation = if word.addr == sp {
        Annotation::Sp
    } else if word.addr == fp {
        Annotation::Fp
    } else if !word.in_use {
        if value == 0 {
            Annotation::Zero
        } else {
            Annotation::Uninit
        }
    } else {
        Annotation::Blank
    };
    let mut addr_text = hex_string(word.addr as u64, 8);
    addr_text.append("  ");
    let mut value_text = hex_string(value as u64, 8);
    value_text.append("  ");
    let mut byte_texts: Vec<String> = Vec::new();
    let mut k: usize = 0;
    while k < 4
        invariant
            k <= 4,
            byte_texts@.len() == k,
            forall|j: int| 0 <= j < k ==> #[trigger] byte_texts@[j]@ == byte_text_of(*word, j),
        decreases 4 - k,
    {
        let mut t = hex_string(word.bytes[3 - k] as u64, 2);
        if k == 3 {
            t.append("     ");
        } else {
            t.append("    ");
        }
        byte_texts.push(t);
        k = k + 1;
    }
    let mut decimal_text = signed_string(value as i32, 10);
    decimal_text.append("  ");
    StackRow {
        word: *word,
        value,
        mark,
        annotation,
        fade,
        bold: word.addr == sp || word.addr == fp,
        addr_text,
        value_text,
        byte_texts,
        decimal_text,
        annotation_text: annotation_str(annotation),
    }
}

fn annotation_str(a: Annotation) -> (r: String)
    ensures
        r@ == annotation_text_of(a),
{
    proof {
        reveal_strlit("");
    }
    match a {
        Annotation::Sp => String::from_str("← SP"),
        Annotation::Fp => String::from_str("← FP"),
        Annotation::Zero => String::from_str("[zero]"),
        Annotation::Uninit => String::from_str("(uninit)"),
        Annotation::Blank => String::new(),
    }
}

/// The stack panel: the snapshot, high addresses first.
pub struct StackPanel<'a> {
    pub state: &'a EmulatorState,
}

impl<'a> StackPanel<'a> {
    /// One row per word of the snapshot, in its order, against the current SP and FP.
    pub fn rows(&self) -> (r: Vec<StackRow>)
        ensures
            r@.len() == self.state.stack@.len(),
            forall|i: int|
                #![trigger r@[i]]
                0 <= i < r@.len() ==> row_of(
                    r@[i],
                    self.state.stack@[i],
                    self.state.regs[13],
                    self.state.regs[11],
                ),
    {
        let sp = self.state.sp();
        let fp = self.state.fp();
        let mut rows: Vec<StackRow> = Vec::new();
        let mut i: usize = 0;
        while i < self.state.stack.len()
            invariant
                i <= self.state.stack@.len(),
                sp == self.state.regs[13],
                fp == self.state.regs[11],
                rows@.len() == i,
                forall|j: int|
                    #![trigger rows@[j]]
                    0 <= j < i ==> row_of(rows@[j], self.state.stack@[j], sp, fp),
            decreases self.state.stack@.len() - i,
        {
            let row = build_row(&self.state.stack[i], sp, fp);
            rows.push(row);
            i = i + 1;
        }
        rows
    }
}

/// The note of a stack row: `← SP` on the word at SP, else `← FP` on the
/// word at FP; any other free word reads `[zero]` exactly when all four of its
/// bytes are zero and `(uninit)` otherwise; a word in use has no note.
pub proof fn lemma_row_annotation(r: StackRow, w: StackWord, sp: u32, fp: u32)
    requires
        row_of(r, w, sp, fp),
    ensures
        w.addr == sp ==> r.annotation_text@ == "← SP"@,
        w.addr != sp && w.addr == fp ==> r.annotation_text@ == "← FP"@,
        w.addr != sp && w.addr != fp && !w.in_use ==> r.annotation_text@ == (if w.bytes[0] == 0
            && w.bytes[1] == 0 && w.bytes[2] == 0 && w.bytes[3] == 0 {
            "[zero]"@
        } else {
            "(uninit)"@
        }),
        w.addr != sp && w.addr != fp && w.in_use ==> r.annotation_text@.len() == 0,
{
    reveal_strlit("");
    assert(w.bytes@[0] == w.bytes[0]);
    assert(w.bytes@[1] == w.bytes[1]);
    assert(w.bytes@[2] == w.bytes[2]);
    assert(w.bytes@[3] == w.bytes[3]);
}

/// The hexadecimal number that a stack-row text starts with: `0x` and the
/// digits up to the `n` padding spaces at its end.
pub open spec fn hex_field(t: Seq<char>, n: int) -> int {
    value_of(t.subrange(2, t.len() - n), 16)
}

proof fn lemma_byte_split(b0: u8, b1: u8, b2: u8, b3: u8, v: int)
    requires
        v == b0 + 256 * b1 + 65536 * b2 + 16777216 * b3,
    ensures
        v / 16777216 == b3,
        (v / 65536) % 256 == b2,
        (v / 256) % 256 == b1,
        v % 256 == b0,
{
    assert(v / 16777216 == b3) by (nonlinear_arith)
        requires
            v == b0 + 256 * b1 + 65536 * b2 + 16777216 * b3,
            b0 < 256,
            b1 < 256,
            b2 < 256,
    ;
    assert(v / 65536 == b2 + 256 * b3) by (nonlinear_arith)
        requires
            v == b0 + 256 * b1 + 65536 * b2 + 16777216 * b3,
            b0 < 256,
            b1 < 256,
    ;
    assert((b2 + 256 * b3) % 256 == b2) by (nonlinear_arith)
        requires
            b2 < 256,
    ;
    assert(v / 256 == b1 + 256 * b2 + 65536 * b3) by (nonlinear_arith)
        requires
            v == b0 + 256 * b1 + 65536 * b2 + 16777216 * b3,
            b0 < 256,
    ;
    assert((b1 + 256 * b2 + 65536 * b3) % 256 == b1) by (nonlinear_arith)
        requires
            b1 < 256,
    ;
    assert(v % 256 == b0) by (nonlinear_arith)
        requires
            v == b0 + 256 * b1 + 65536 * b2 + 16777216 * b3,
            b0 < 256,
    ;
}

/// What a stack row reads: the address and the value in hexadecimal; the
/// byte columns, from left to right, the value's most significant byte down
/// to its least significant one; and, after the spaces in front, the value
/// read as a two's-complement 32-bit number in decimal.
pub proof fn lemma_row_texts_read_back(r: StackRow, w: StackWord, sp: u32, fp: u32)
    requires
        row_of(r, w, sp, fp),
    ensures
        hex_field(r.addr_text@, 2) == w.addr,
        hex_field(r.value_text@, 2) == r.value,
        hex_field(r.byte_texts@[0]@, 4) == r.value / 16777216,
        hex_field(r.byte_texts@[1]@, 4) == (r.value / 65536) % 256,
        hex_field(r.byte_texts@[2]@, 4) == (r.value / 256) % 256,
        hex_field(r.byte_texts@[3]@, 5) == r.value % 256,
        signed_value(trim_start(r.decimal_text@.subrange(0, r.decimal_text@.len() - 2))) == (if r.value
            < 0x8000_0000 {
            r.value as int
        } else {
            r.value - 0x1_0000_0000
        }),
{
    reveal_strlit("  ");
    reveal_strlit("    ");
    reveal_strlit("     ");
    let v = r.value;
    lemma_hex_text(w.addr as nat, 8);
    assert(r.addr_text@.subrange(2, r.addr_text@.len() - 2) =~= hex_text(w.addr as nat, 8).skip(2));
    lemma_hex_text(v as nat, 8);
    assert(r.value_text@.subrange(2, r.value_text@.len() - 2) =~= hex_text(v as nat, 8).skip(2));
    lemma_byte_split(w.bytes[0], w.bytes[1], w.bytes[2], w.bytes[3], v as int);
    assert(w.bytes@[0] == w.bytes[0] && w.bytes@[1] == w.bytes[1] && w.bytes@[2] == w.bytes[2]
        && w.bytes@[3] == w.bytes[3]);
    assert forall|k: int| 0 <= k < 4 implies hex_field(
        #[trigger] r.byte_texts@[k]@,
        if k == 3 {
            5
        } else {
            4
        },
    ) == w.bytes[3 - k] by {
        lemma_hex_text(w.bytes[3 - k] as nat, 2);
        let n: int = if k == 3 {
            5
        } else {
            4
        };
        assert(r.byte_texts@[k]@.subrange(2, r.byte_texts@[k]@.len() - n) =~= hex_text(
            w.bytes[3 - k] as nat,
            2,
        ).skip(2));
    }
    assert(hex_field(r.byte_texts@[0]@, 4) == w.bytes[3]);
    assert(hex_field(r.byte_texts@[1]@, 4) == w.bytes[2]);
    assert(hex_field(r.byte_texts@[2]@, 4) == w.bytes[1]);
    assert(hex_field(r.byte_texts@[3]@, 5) == w.bytes[0]);
    lemma_as_i32(v);
    let x = (v as i32) as int;
    lemma_signed_text(x, 10);
    assert(r.decimal_text@.subrange(0, r.decimal_text@.len() - 2) =~= pad_left(
        signed_digits(x),
        10,
        ' ',
    ));
}

} // verus!
