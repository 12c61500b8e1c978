//! Pages, and the permissions of a mapped region.
use vstd::prelude::*;

verus! {

/// The size of a page, in bytes.
pub const PAGE_SIZE: usize = 4096;

/// The distance of `addr` from the start of its page.
pub fn page_offset(addr: usize) -> (offset: usize)
    ensures
        offset == addr % PAGE_SIZE,
{
    addr % PAGE_SIZE
}

/// What a task may do with a mapped region: a set drawn from readable,
/// writable, executable and user-accessible, one bit each, at the position
/// of the flag in a page-table entry.
#[derive(Debug, Clone, Copy, PartialEq, Eq, Structural)]
pub struct MapPermission {
    bits: u8,
}

impl MapPermission {
    /// The region may be read.
    pub const R: u8 = 0x02;

    /// The region may be written.
    pub const W: u8 = 0x04;

    /// The region may be executed.
    pub const X: u8 = 0x08;

    /// The region is accessible in user mode.
    pub const U: u8 = 0x10;

    /// The set as bits.
    pub closed spec fn bits_spec(&self) -> u8 {
        self.bits
    }

    /// The set as bits.
    #[verifier::when_used_as_spec(bits_spec)]
    pub fn bits(&self) -> (bits: u8)
        ensures
            bits == self.bits(),
    {
        self.bits
    }

    /// Whether the flag `flag` (one of `R`, `W`, `X`, `U`) is in the set.
    pub open spec fn has(&self, flag: u8) -> bool {
        self.bits() & flag != 0
    }

    /// Whether every flag of `flags` is in the set.
    pub fn contains(&self, flags: u8) -> (all: bool)
        ensures
            all <==> self.bits() & flags == flags,
    {
        self.bits & flags == flags
    }

    /// Whether `prot` is a protection that a task may ask for: no bit set
    /// but the low three (bit 0 read, bit 1 write, bit 2 execute), and at
    /// least one of those.
    pub open spec fn valid_prot(prot: usize) -> bool {
        1 <= prot <= 7
    }

    /// The bits of a user mapping asked for with the valid protection
    /// `prot`: each of the three requested bits one place up, at its flag,
    /// and the flag of user access.
    pub open spec fn user_bits(prot: usize) -> int {
        2 * prot + 16
    }

    /// The permissions of a user mapping asked for with `prot`, or `None`
    /// where `prot` is no valid protection.
    pub fn from_prot(prot: usize) -> (perm: Option<MapPermission>)
        ensures
            perm.is_some() <==> Self::valid_prot(prot),
            perm matches Some(p) ==> {
                &&& p.bits() == Self::user_bits(prot)
                &&& p.has(Self::R) <==> prot & 0x1 != 0
                &&& p.has(Self::W) <==> prot & 0x2 != 0
                &&& p.has(Self::X) <==> prot & 0x4 != 0
                &&& p.has(Self::U)
                &&& p.bits() & !(Self::R | Self::W | Self::X | Self::U) == 0
            },
    {
        proof {
            valid_prot_in_bits(prot);
        }
        if prot & !0x7 == 0 && prot & 0x7 != 0 {
            let requested = (prot << 1) as u8;
            let bits = requested | Self::U;
            assert(bits == 2 * prot + 16 && (bits & 0x02u8 != 0 <==> prot & 0x1 != 0) && (bits
                & 0x04u8 != 0 <==> prot & 0x2 != 0) && (bits & 0x08u8 != 0 <==> prot & 0x4 != 0)
                && bits & 0x10u8 != 0 && bits & !(0x02u8 | 0x04u8 | 0x08u8 | 0x10u8) == 0)
                by (bit_vector)
                requires
                    1 <= prot <= 7,
                    bits == ((prot << 1) as u8) | 0x10u8,
            ;
            Some(MapPermission { bits })
        } else {
            None
        }
    }
}

/// A protection is valid exactly if it has no bit set outside the low three
/// and at least one of those set.
pub proof fn valid_prot_in_bits(prot: usize)
    ensures
        MapPermission::valid_prot(prot) <==> prot & !0x7 == 0 && prot & 0x7 != 0,
{
    assert((prot & !0x7 == 0 && prot & 0x7 != 0) <==> 1 <= prot <= 7) by (bit_vector);
}

} // verus!
