use vstd::prelude::*;

verus! {

/// The disassembler's own error type.
#[verifier::external_type_specification]
#[verifier::external_body]
pub struct ExCapstoneError(capstone::Error);

/// Why an emulator component could not be set up.
#[derive(Debug)]
pub enum EmulatorError {
    /// The disassembler could not be initialised.
    Capstone(capstone::Error),
}

} // verus!
