use vstd::prelude::*;

use crate::text::{digits, str_eq};

verus! {

/// Display name of register `i` (r0..r15 in the panel's order).
pub open spec fn reg_name_of(i: int) -> Seq<char> {
    if i == 0 {
        "r0"@
    } else if i == 1 {
        "r1"@
    } else if i == 2 {
        "r2"@
    } else if i == 3 {
        "r3"@
    } else if i == 4 {
        "r4"@
    } else if i == 5 {
        "r5"@
    } else if i == 6 {
        "r6"@
    } else if i == 7 {
        "r7"@
    } else if i == 8 {
        "r8"@
    } else if i == 9 {
        "r9"@
    } else if i == 10 {
        "r10"@
    } else if i == 11 {
        "fp"@
    } else if i == 12 {
        "ip"@
    } else if i == 13 {
        "sp"@
    } else if i == 14 {
        "lr"@
    } else {
        "pc"@
    }
}

/// Display name of register `i` (`fp`, `ip`, `sp`, `lr`, `pc` for r11..r15).
pub fn reg_name(i: usize) -> (r: &'static str)
    requires
        i < 16,
    ensures
        r@ == reg_name_of(i as int),
{
    if i == 0 {
        "r0"
    } else if i == 1 {
        "r1"
    } else if i == 2 {
        "r2"
    } else if i == 3 {
        "r3"
    } else if i == 4 {
        "r4"
    } else if i == 5 {
        "r5"
    } else if i == 6 {
        "r6"
    } else if i == 7 {
        "r7"
    } else if i == 8 {
        "r8"
    } else if i == 9 {
        "r9"
    } else if i == 10 {
        "r10"
    } else if i == 11 {
        "fp"
    } else if i == 12 {
        "ip"
    } else if i == 13 {
        "sp"
    } else if i == 14 {
        "lr"
    } else {
        "pc"
    }
}

/// The sixteen names are pairwise different.
/// Register `i` is shown under its ARM name: `r` and its number for r0..r10,
/// then `fp` (r11), `ip` (r12), `sp` (r13), `lr` (r14) and `pc` (r15).
pub proof fn lemma_reg_names_are_arm_names()
    ensures
        forall|i: int| 0 <= i <= 10 ==> #[trigger] reg_name_of(i) == seq!['r'] + digits(i as nat, 10),
        reg_name_of(11) == seq!['f', 'p'],
        reg_name_of(12) == seq!['i', 'p'],
        reg_name_of(13) == seq!['s', 'p'],
        reg_name_of(14) == seq!['l', 'r'],
        reg_name_of(15) == seq!['p', 'c'],
{
    reveal_strlit("r0");
    reveal_strlit("r1");
    reveal_strlit("r2");
    reveal_strlit("r3");
    reveal_strlit("r4");
    reveal_strlit("r5");
    reveal_strlit("r6");
    reveal_strlit("r7");
    reveal_strlit("r8");
    reveal_strlit("r9");
    reveal_strlit("r10");
    reveal_strlit("fp");
    reveal_strlit("ip");
    reveal_strlit("sp");
    reveal_strlit("lr");
    reveal_strlit("pc");
    assert forall|i: int| 0 <= i <= 10 implies #[trigger] reg_name_of(i) == seq!['r'] + digits(
        i as nat,
        10,
    ) by {
        reveal_with_fuel(digits, 2);
        assert(digits(1, 10) == seq!['1']);
        assert(digits(10, 10) =~= seq!['1', '0']);
        assert(reg_name_of(i) =~= seq!['r'] + digits(i as nat, 10));
    }
    assert(reg_name_of(11) =~= seq!['f', 'p']);
    assert(reg_name_of(12) =~= seq!['i', 'p']);
    assert(reg_name_of(13) =~= seq!['s', 'p']);
    assert(reg_name_of(14) =~= seq!['l', 'r']);
    assert(reg_name_of(15) =~= seq!['p', 'c']);
}

pub proof fn lemma_reg_names_distinct()
    ensures
        forall|i: int, j: int|
            0 <= i < 16 && 0 <= j < 16 && i != j ==> reg_name_of(i) != reg_name_of(j),
{
    reveal_strlit("r0");
    reveal_strlit("r1");
    reveal_strlit("r2");
    reveal_strlit("r3");
    reveal_strlit("r4");
    reveal_strlit("r5");
    reveal_strlit("r6");
    reveal_strlit("r7");
    reveal_strlit("r8");
    reveal_strlit("r9");
    reveal_strlit("r10");
    reveal_strlit("fp");
    reveal_strlit("ip");
    reveal_strlit("sp");
    reveal_strlit("lr");
    reveal_strlit("pc");
    assert forall|i: int, j: int|
        0 <= i < 16 && 0 <= j < 16 && i != j implies reg_name_of(i) != reg_name_of(j) by {
        if reg_name_of(i).len() == reg_name_of(j).len() {
            if reg_name_of(i)[0] == reg_name_of(j)[0] {
                assert(reg_name_of(i)[1] != reg_name_of(j)[1]);
            }
        }
    }
}

/// The number (0..15) of the register called `name`; 0 (r0) for a name that
/// is none of them.
pub fn reg_id(name: &str) -> (r: usize)
    ensures
        r < 16,
        forall|i: int| 0 <= i < 16 && reg_name_of(i) == name@ ==> r == i,
        (forall|i: int| 0 <= i < 16 ==> reg_name_of(i) != name@) ==> r == 0,
{
    proof {
        lemma_reg_names_distinct();
    }
    let mut i: usize = 0;
    while i < 16
        invariant
            i <= 16,
            forall|j: int| 0 <= j < i ==> reg_name_of(j) != name@,
            forall|a: int, b: int|
                0 <= a < 16 && 0 <= b < 16 && a != b ==> reg_name_of(a) != reg_name_of(b),
        decreases 16 - i,
    {
        if str_eq(name, reg_name(i)) {
            return i;
        }
        i = i + 1;
    }
    0
}

/// Whether bit `k` of `x` is set, stated arithmetically.
pub open spec fn bit_set(x: u32, k: nat) -> bool {
    (x as nat / vstd::arithmetic::power2::pow2(k)) % 2 == 1
}

/// The four condition flags held in the top nibble of the CPSR.
pub struct CpsrFlags {
    pub n: bool,
    pub z: bool,
    pub c: bool,
    pub v: bool,
}

impl CpsrFlags {
    /// The flags of a CPSR value.
    pub open spec fn spec_flags(cpsr: u32) -> CpsrFlags {
        CpsrFlags {
            n: bit_set(cpsr, 31),
            z: bit_set(cpsr, 30),
            c: bit_set(cpsr, 29),
            v: bit_set(cpsr, 28),
        }
    }

    /// Splits a CPSR value into its N (bit 31), Z (bit 30), C (bit 29) and V (bit 28) flags.
    pub fn from_cpsr(cpsr: u32) -> (flags: Self)
        ensures
            flags == Self::spec_flags(cpsr),
            flags.n == bit_set(cpsr, 31),
            flags.z == bit_set(cpsr, 30),
            flags.c == bit_set(cpsr, 29),
            flags.v == bit_set(cpsr, 28),
    {
        proof {
            lemma_top_bits(cpsr);
        }
        CpsrFlags {
            n: (cpsr >> 31u32) & 1 == 1,
            z: (cpsr >> 30u32) & 1 == 1,
            c: (cpsr >> 29u32) & 1 == 1,
            v: (cpsr >> 28u32) & 1 == 1,
        }
    }
}

proof fn lemma_shift_bit(x: u32, k: u32)
    requires
        k < 32,
    ensures
        ((x >> k) & 1 == 1) == bit_set(x, k as nat),
{
    vstd::bits::lemma_u32_shr_is_div(x, k);
    vstd::arithmetic::power2::lemma_pow2_pos(k as nat);
    let q: u32 = x >> k;
    assert((q & 1 == 1) == (q % 2 == 1)) by (bit_vector);
}

proof fn lemma_top_bits(x: u32)
    ensures
        ((x >> 31u32) & 1 == 1) == bit_set(x, 31),
        ((x >> 30u32) & 1 == 1) == bit_set(x, 30),
        ((x >> 29u32) & 1 == 1) == bit_set(x, 29),
        ((x >> 28u32) & 1 == 1) == bit_set(x, 28),
{
    lemma_shift_bit(x, 31);
    lemma_shift_bit(x, 30);
    lemma_shift_bit(x, 29);
    lemma_shift_bit(x, 28);
}

/// The flags read the top four bits of the CPSR: N is set exactly when the
/// value is at least 2^31; Z, C and V when what is left below the higher
/// bits is at least 2^30, 2^29 and 2^28 respectively.
pub proof fn lemma_flags_are_top_bits(cpsr: u32)
    ensures
        CpsrFlags::spec_flags(cpsr).n == (cpsr >= 0x8000_0000),
        CpsrFlags::spec_flags(cpsr).z == (cpsr % 0x8000_0000 >= 0x4000_0000),
        CpsrFlags::spec_flags(cpsr).c == (cpsr % 0x4000_0000 >= 0x2000_0000),
        CpsrFlags::spec_flags(cpsr).v == (cpsr % 0x2000_0000 >= 0x1000_0000),
{
    vstd::arithmetic::power2::lemma2_to64();
    let x = cpsr as int;
    assert(((x / 0x8000_0000) % 2 == 1) == (x >= 0x8000_0000)) by (nonlinear_arith)
        requires
            0 <= x < 0x1_0000_0000,
    ;
    assert(((x / 0x4000_0000) % 2 == 1) == (x % 0x8000_0000 >= 0x4000_0000)) by (nonlinear_arith)
        requires
            0 <= x < 0x1_0000_0000,
    ;
    assert(((x / 0x2000_0000) % 2 == 1) == (x % 0x4000_0000 >= 0x2000_0000)) by (nonlinear_arith)
        requires
            0 <= x < 0x1_0000_0000,
    ;
    assert(((x / 0x1000_0000) % 2 == 1) == (x % 0x2000_0000 >= 0x1000_0000)) by (nonlinear_arith)
        requires
            0 <= x < 0x1_0000_0000,
    ;
}

} // verus!
