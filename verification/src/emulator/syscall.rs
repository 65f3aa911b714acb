use vstd::prelude::*;
use vstd::string::StringSliceAdditionalSpecFns;
use vstd::utf8::{decode_utf8, valid_utf8};

verus! {

/// What a software interrupt asks for, by the Linux ARM EABI convention
/// (syscall number in r7).
#[derive(Debug, PartialEq, Eq, Structural)]
pub enum SyscallAction {
    /// `sys_write` (r7 = 4): write `count` bytes from `buf` (r1, r2).
    Write { buf: u64, count: usize },
    /// `sys_exit` (r7 = 1) or `sys_exit_group` (r7 = 248): stop the emulation.
    Exit,
    /// Any other number: nothing happens.
    Ignore,
}

/// The action for a software interrupt with `r7`, `r1` (`buf`) and `r2` (`count`).
pub fn swi_action(r7: u32, buf: u64, count: usize) -> (r: SyscallAction)
    ensures
        r == (if r7 == 4 {
            SyscallAction::Write { buf, count }
        } else if r7 == 1 || r7 == 248 {
            SyscallAction::Exit
        } else {
            SyscallAction::Ignore
        }),
{
    if r7 == 4 {
        SyscallAction::Write { buf, count }
    } else if r7 == 1 || r7 == 248 {
        SyscallAction::Exit
    } else {
        SyscallAction::Ignore
    }
}

/// `std::str::from_utf8` with its error dropped. Claimed, as the standard
/// library documents: it succeeds exactly on valid UTF-8, and the string it
/// gives encodes to the same bytes.
#[verifier::external_body]
fn utf8_str(bytes: &[u8]) -> (r: Option<&str>)
    ensures
        r is Some <==> valid_utf8(bytes@),
        r matches Some(s) ==> s.spec_bytes() == bytes@,
{
    std::str::from_utf8(bytes).ok()
}

/// Appends the bytes that a `sys_write` wrote to the output when they are
/// valid UTF-8; other bytes are dropped.
pub fn append_written(output: &mut String, bytes: &[u8])
    ensures
        valid_utf8(bytes@) ==> final(output)@ == old(output)@ + decode_utf8(bytes@),
        !valid_utf8(bytes@) ==> final(output)@ == old(output)@,
{
    if let Some(s) = utf8_str(bytes) {
        proof {
            vstd::utf8::encode_utf8_decode_utf8(s@);
        }
        output.append(s);
    }
}

} // verus!
