//! The command matcher: decides whether a raw output report spells the one
//! command this device understands.

use vstd::prelude::*;

verus! {

/// The byte sequence that triggers the reboot: ASCII `reboot`.
pub open spec fn reboot_command() -> Seq<u8> {
    seq![0x72u8, 0x65u8, 0x62u8, 0x6Fu8, 0x6Fu8, 0x74u8]
}

/// Whether a report whose payload is `bytes`, of which the first `len` are
/// valid, carries the reboot command: exactly six valid bytes, equal to
/// `reboot`.  A report of any other length never matches.
pub open spec fn is_reboot_report(bytes: Seq<u8>, len: int) -> bool {
    &&& len == 6
    &&& len <= bytes.len()
    &&& bytes.subrange(0, 6) == reboot_command()
}

/// Decides whether the first `len` bytes of `buf` spell the reboot command.
/// No partial match, no case folding, no trimming.
pub fn is_reboot_command(buf: &[u8; 6], len: usize) -> (r: bool)
    ensures
        r == is_reboot_report(buf@, len as int),
{
    if len != 6 {
        return false;
    }
    let r = buf[0] == 0x72 && buf[1] == 0x65 && buf[2] == 0x62 && buf[3] == 0x6F
        && buf[4] == 0x6F && buf[5] == 0x74;
    proof {
        let s = buf@.subrange(0, 6);
        assert(s[0] == buf@[0] && s[1] == buf@[1] && s[2] == buf@[2] && s[3] == buf@[3]
            && s[4] == buf@[4] && s[5] == buf@[5]);
        if r {
            assert(s =~= reboot_command());
        } else {
            assert(s != reboot_command());
        }
    }
    r
}

} // verus!
