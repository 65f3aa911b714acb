use vstd::prelude::*;

use crate::text::{append_number, digits, pad_left};

verus! {

/// The error that stops execution on an instruction outside the whitelist.
pub fn refusal_message(mnemonic: &str) -> (r: String)
    ensures
        r@ == "指令 '"@ + mnemonic@ + "' 不在允许列表中，执行已终止"@,
{
    let mut r = String::from_str("指令 '");
    r.append(mnemonic);
    r.append("' 不在允许列表中，执行已终止");
    r
}

/// The error that stops execution on an access to unmapped memory: the
/// address in lower-case hexadecimal, at least eight digits.
pub fn unmapped_message(addr: u64) -> (r: String)
    ensures
        r@ == "访问未映射内存: 0x"@ + pad_left(digits(addr as nat, 16), 8, '0'),
{
    let mut r = String::from_str("访问未映射内存: 0x");
    proof {
        reveal_strlit("0");
    }
    append_number(&mut r, addr, 16, false, 8, "0");
    r
}

} // verus!
