//! Process-launcher decisions. The launch itself — duplicating the process,
//! closing stray descriptors, stopping, replacing the program — is
//! operating-system work done by the host layer; what is decided here is
//! which descriptors survive into the child, how a descriptor-table entry
//! name is read, and how an early failure's error code travels over the
//! error-report descriptor.

use vstd::prelude::*;

use crate::encoding::be32_value;
use crate::encoding::encode_be32;
use crate::encoding::parse_decimal;
use crate::encoding::spec_be32;
use crate::encoding::spec_parse_decimal;

verus! {

/// The bytes written to the error-report descriptor when the child fails
/// between duplication and program replacement: the OS error code, four
/// big-endian bytes.
pub fn encode_errno(errno: u32) -> (r: Vec<u8>)
    ensures
        r@ == spec_be32(errno),
{
    let mut r: Vec<u8> = Vec::new();
    encode_be32(errno, &mut r);
    proof {
        assert(r@ =~= spec_be32(errno));
    }
    r
}

/// The OS error code recovered from the four bytes the error-report
/// descriptor carried.
pub fn decode_errno(bytes: &Vec<u8>) -> (r: u32)
    requires
        bytes@.len() == 4,
    ensures
        r == be32_value(bytes@),
        spec_be32(r) == bytes@,
{
    proof {
        crate::encoding::lemma_be32_extensional(bytes@);
        assert(bytes@.subrange(0, 4) =~= bytes@);
    }
    crate::encoding::decode_be32(bytes, 0)
}

/// Reads a descriptor-table entry name as a descriptor number: a nonempty
/// decimal numeral that fits a descriptor, anything else is not a
/// descriptor entry.
pub fn parse_fd_name(name: &Vec<u8>) -> (r: Option<i32>)
    ensures
        r is Some <==> spec_parse_decimal(name@, 0x7fffffff) is Some,
        r matches Some(fd) ==> (fd >= 0 && Some(fd as nat) == spec_parse_decimal(
            name@,
            0x7fffffff,
        )),
{
    match parse_decimal(name, 0x7fffffff) {
        Some(v) => Some(v as i32),
        None => None,
    }
}

/// Whether a descriptor inherited into the child is to be closed before the
/// program is replaced: everything but the explicitly kept ones goes, so no
/// stray descriptor leaks into the target.
pub fn should_close_fd(fd: i32, keep: &Vec<i32>) -> (r: bool)
    ensures
        r == !keep@.contains(fd),
{
    let mut i: usize = 0;
    while i < keep.len()
        invariant
            i <= keep@.len(),
            forall|m: int| 0 <= m < i ==> #[trigger] keep@[m] != fd,
        decreases keep@.len() - i,
    {
        if keep[i] == fd {
            return false;
        }
        i = i + 1;
    }
    true
}

} // verus!
