use std::collections::HashSet;
use vstd::prelude::*;

verus! {

broadcast use vstd::std_specs::hash::group_hash_axioms;

/// The set of permitted instruction ids.
pub fn whitelist_from_ids(ids: &[u32]) -> (r: HashSet<u32>)
    ensures
        r@ == ids@.to_set(),
{
    let mut set: HashSet<u32> = HashSet::new();
    let mut i: usize = 0;
    while i < ids.len()
        invariant
            i <= ids@.len(),
            set@ == ids@.take(i as int).to_set(),
        decreases ids@.len() - i,
    {
        set.insert(ids[i]);
        proof {
            assert(ids@.take(i + 1) =~= ids@.take(i as int).push(ids@[i as int]));
            ids@.take(i as int).lemma_push_to_set_commute(ids@[i as int]);
        }
        i = i + 1;
    }
    assert(ids@.take(ids@.len() as int) =~= ids@);
    set
}

/// The mnemonic of a decoded instruction that the whitelist does not permit,
/// which stops execution; `None` for a permitted instruction or for bytes
/// that did not decode.
pub fn refused_mnemonic(whitelist: &HashSet<u32>, insn: Option<(u32, String)>) -> (r: Option<
    String,
>)
    ensures
        match insn {
            Some((id, m)) => if whitelist@.contains(id) {
                r is None
            } else {
                r matches Some(x) && x@ == m@
            },
            None => r is None,
        },
{
    match insn {
        Some((id, m)) => if whitelist.contains(&id) {
            None
        } else {
            Some(m)
        },
        None => None,
    }
}

/// The permitted instructions, as Capstone's ARM instruction ids (the
/// values of `capstone::arch::arm::ArmInsn` in the version this crate is
/// built with). Capstone gives an instruction and its flag-setting (`S`)
/// form one id, so the base forms suffice.
pub open spec fn permitted_ids() -> Seq<u32> {
    seq![
        // data processing: MOV MOVW MOVT MVN ADD ADC SUB SBC RSB RSC
        106, 109, 108, 117, 2, 1, 251, 154, 149, 150,
        // multiplication: MUL MLA UMULL UMLAL SMULL SMLAL
        116, 104, 287, 286, 209, 184,
        // logic: AND ORR EOR BIC
        9, 121, 45, 14,
        // shifts: LSL LSR ASR ROR RRX
        98, 99, 10, 147, 148,
        // compare and test: CMP CMN TST TEQ
        29, 28, 268, 265,
        // loads and stores: LDR LDRB LDRH LDRSB LDRSH STR STRB STRH
        83, 84, 91, 93, 95, 240, 241, 248,
        // multiple loads and stores: LDM LDMDA LDMDB LDMIB STM STMDA STMDB STMIB PUSH POP
        79, 80, 81, 82, 236, 237, 238, 239, 128, 127,
        // branches: B BL BX BLX
        11, 16, 19, 17,
        // system call and no-op: SVC NOP
        254, 119,
    ]
}

/// The whitelist a new engine starts with.
pub fn default_whitelist() -> (r: HashSet<u32>)
    ensures
        r@ == permitted_ids().to_set(),
{
    let ids: Vec<u32> = vec![
        106, 109, 108, 117, 2, 1, 251, 154, 149, 150,
        116, 104, 287, 286, 209, 184,
        9, 121, 45, 14,
        98, 99, 10, 147, 148,
        29, 28, 268, 265,
        83, 84, 91, 93, 95, 240, 241, 248,
        79, 80, 81, 82, 236, 237, 238, 239, 128, 127,
        11, 16, 19, 17,
        254, 119,
    ];
    assert(ids@ =~= permitted_ids());
    whitelist_from_ids(ids.as_slice())
}

} // verus!
