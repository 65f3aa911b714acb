use capstone::arch::BuildsCapstone;
use capstone::Capstone;
use vstd::prelude::*;

use crate::emulator::error::EmulatorError;

verus! {

/// Capstone's disassembler handle.
#[verifier::external_type_specification]
#[verifier::external_body]
pub struct ExCapstone(Capstone);

/// What Capstone, set up for 32-bit ARM code, reports for the first
/// instruction of `bytes` placed at `addr`: its instruction id, its mnemonic
/// and its operand text (each text absent where Capstone gives none); `None`
/// where no instruction could be decoded.
pub uninterp spec fn arm_first_insn(bytes: Seq<u8>, addr: u64) -> Option<
    (u32, Option<Seq<char>>, Option<Seq<char>>),
>;

/// The text that stands for an absent one.
pub open spec fn text_or(t: Option<Seq<char>>, default: Seq<char>) -> Seq<char> {
    match t {
        Some(s) => s,
        None => default,
    }
}

/// Builds a Capstone handle for 32-bit ARM code with instruction details
/// (`Capstone::new().arm().mode(ArchMode::Arm).detail(true).build()`).
/// Nothing is claimed of the outcome: it depends on the machine.
#[verifier::external_body]
fn build_arm_capstone() -> (r: Result<Capstone, capstone::Error>) {
    Capstone::new().arm().mode(capstone::arch::arm::ArchMode::Arm).detail(true).build()
}

/// Disassembles one instruction with `Capstone::disasm_count(bytes, addr, 1)`
/// and converts the first instruction it returns to its id
/// (`Insn::id`), mnemonic (`Insn::mnemonic`) and operand text
/// (`Insn::op_str`); an error or an empty result gives `None`. Claimed: the
/// result is what `arm_first_insn` names for these bytes and this address,
/// the handle being one that `build_arm_capstone` set up for ARM code.
#[verifier::external_body]
fn decode_first(d: &Disassembler, bytes: &[u8], addr: u64) -> (r: Option<
    (u32, Option<String>, Option<String>),
>)
    ensures
        r.deep_view() == arm_first_insn(bytes@, addr),
{
    let insns = d.cs.disasm_count(bytes, addr, 1).ok()?;
    let insn = insns.first()?;
    let mnemonic = insn.mnemonic().map(|m| m.to_string());
    let op_str = insn.op_str().map(|o| o.to_string());
    Some((insn.id().0, mnemonic, op_str))
}

/// A disassembler for 32-bit ARM code.
pub struct Disassembler {
    cs: Capstone,
}

impl Disassembler {
    /// The Capstone handle that the disassembler holds.
    pub closed spec fn handle(self) -> Capstone {
        self.cs
    }

    /// Sets up the disassembler; fails where Capstone cannot be initialised.
    pub fn new() -> (r: Result<Self, EmulatorError>) {
        match build_arm_capstone() {
            Ok(cs) => Ok(Disassembler { cs }),
            Err(e) => Err(EmulatorError::Capstone(e)),
        }
    }

    /// The mnemonic and operand text of the first instruction in `bytes` at
    /// `addr`; `"?"` stands for a missing mnemonic and `""` for missing
    /// operands. `None` where nothing could be decoded.
    pub fn disasm_one(&self, bytes: &[u8], addr: u64) -> (r: Option<(String, String)>)
        ensures
            match arm_first_insn(bytes@, addr) {
                None => r is None,
                Some((_, m, o)) => r matches Some((rm, ro)) && rm@ == text_or(m, "?"@) && ro@
                    == text_or(o, ""@),
            },
    {
        match decode_first(self, bytes, addr) {
            None => None,
            Some((_, m, o)) => {
                let mnemonic = match m {
                    Some(s) => s,
                    None => String::from_str("?"),
                };
                let op_str = match o {
                    Some(s) => s,
                    None => String::from_str(""),
                };
                Some((mnemonic, op_str))
            },
        }
    }

    /// The Capstone instruction id of the first instruction in `bytes` at
    /// `addr`, as the whitelist checks it.
    pub fn insn_id(&self, bytes: &[u8], addr: u64) -> (r: Option<u32>)
        ensures
            match arm_first_insn(bytes@, addr) {
                None => r is None,
                Some((id, _, _)) => r == Some(id),
            },
    {
        match decode_first(self, bytes, addr) {
            None => None,
            Some((id, _, _)) => Some(id),
        }
    }

    /// The instruction id and mnemonic (`"?"` where missing) of the first
    /// instruction in `bytes` at `addr`, as the execution hook reports it.
    pub fn id_and_mnemonic(&self, bytes: &[u8], addr: u64) -> (r: Option<(u32, String)>)
        ensures
            match arm_first_insn(bytes@, addr) {
                None => r is None,
                Some((id, m, _)) => r matches Some((rid, rm)) && rid == id && rm@ == text_or(
                    m,
                    "?"@,
                ),
            },
    {
        match decode_first(self, bytes, addr) {
            None => None,
            Some((id, m, _)) => {
                let mnemonic = match m {
                    Some(s) => s,
                    None => String::from_str("?"),
                };
                Some((id, mnemonic))
            },
        }
    }

    /// The underlying Capstone handle.
    pub fn capstone(&self) -> (r: &Capstone)
        ensures
            *r == self.handle(),
    {
        &self.cs
    }
}

} // verus!
