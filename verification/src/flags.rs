//! Flag sets: page permissions, `mmap` protections and `mmap` flags.
//!
//! A flag set is a word whose bits are the flags. `contains` and `has` ask for every bit of
//! their argument.
use vstd::prelude::*;
use vstd::std_specs::convert::FromSpecImpl;

verus! {

/// The memory is readable.
pub const MAPPING_READ: usize = 0x1;

/// The memory is writable.
pub const MAPPING_WRITE: usize = 0x2;

/// The memory is executable.
pub const MAPPING_EXECUTE: usize = 0x4;

/// The memory is user accessible.
pub const MAPPING_USER: usize = 0x8;

/// Permissions and attributes of a mapped page.
#[derive(Clone, Copy, PartialEq, Eq, Structural, Debug)]
pub struct MappingFlags {
    /// The flags as a word.
    pub bits: usize,
}

impl MappingFlags {
    /// Whether every flag of `other` is set.
    pub open spec fn spec_contains(self, other: MappingFlags) -> bool {
        self.bits & other.bits == other.bits
    }

    /// Whether every flag of `other` is set.
    #[verifier::when_used_as_spec(spec_contains)]
    pub fn contains(self, other: MappingFlags) -> (r: bool)
        ensures
            r == self.contains(other),
    {
        self.bits & other.bits == other.bits
    }

    /// Whether writing is allowed.
    pub open spec fn spec_writable(self) -> bool {
        self.bits & MAPPING_WRITE == MAPPING_WRITE
    }

    /// Whether writing is allowed.
    #[verifier::when_used_as_spec(spec_writable)]
    pub fn writable(self) -> (r: bool)
        ensures
            r == self.writable(),
    {
        self.bits & MAPPING_WRITE == MAPPING_WRITE
    }

    /// The same flags without the permission to write.
    pub open spec fn spec_read_only(self) -> MappingFlags {
        MappingFlags { bits: self.bits & !MAPPING_WRITE }
    }

    /// The same flags without the permission to write.
    #[verifier::when_used_as_spec(spec_read_only)]
    pub fn read_only(self) -> (r: MappingFlags)
        ensures
            r == self.read_only(),
            !r.writable(),
    {
        proof {
            self.lemma_read_only();
        }
        MappingFlags { bits: self.bits & !MAPPING_WRITE }
    }

    /// Taking the permission to write away removes it and nothing else.
    pub proof fn lemma_read_only(self)
        ensures
            !self.read_only().writable(),
            self.read_only().read_only() == self.read_only(),
            forall|other: MappingFlags| !other.writable() && self.contains(other) ==>
                #[trigger] self.read_only().contains(other),
    {
        let b = self.bits;
        assert((b & !0x2usize) & 0x2usize != 0x2usize) by (bit_vector);
        assert((b & !0x2usize) & !0x2usize == b & !0x2usize) by (bit_vector);
        assert forall|other: MappingFlags| !other.writable() && self.contains(other) implies
            #[trigger] self.read_only().contains(other) by {
            let o = other.bits;
            assert((b & !0x2usize) & o == o) by (bit_vector)
                requires
                    o & 0x2usize != 0x2usize,
                    b & o == o,
            ;
        }
    }
}

/// A set contains another one exactly if it has every bit of it.
pub proof fn law_contains(flags: MappingFlags, other: MappingFlags)
    ensures
        flags.contains(other) <==> other.bits & !flags.bits == 0,
        flags.writable() <==> flags.bits & 2 != 0,
{
    let f = flags.bits;
    let o = other.bits;
    assert((f & o == o) <==> (o & !f == 0)) by (bit_vector);
    assert((f & 2usize == 2usize) <==> (f & 2usize != 0)) by (bit_vector);
}

/// Without the permission to write, that bit is clear and every other bit is as it was.
pub proof fn law_read_only(flags: MappingFlags)
    ensures
        flags.read_only().bits & 2 == 0,
        flags.read_only().bits | 2 == flags.bits | 2,
{
    let f = flags.bits;
    assert((f & !2usize) & 2usize == 0 && (f & !2usize) | 2usize == f | 2usize) by (bit_vector);
}

/// Page permissions allow exactly what a protection word asks for: user access always, and
/// reading, writing and executing exactly if the word has the bit for it.
pub open spec fn permits(flags: MappingFlags, prot: u32) -> bool {
    &&& flags.bits & 8 == 8
    &&& flags.bits & 1 == 1 <==> prot & 1 == 1
    &&& flags.bits & 2 == 2 <==> prot & 2 == 2
    &&& flags.bits & 4 == 4 <==> prot & 4 == 4
    &&& flags.bits <= 0xf
}

/// Page can be read.
pub const PROT_READ: u32 = 0x1;

/// Page can be written.
pub const PROT_WRITE: u32 = 0x2;

/// Page can be executed.
pub const PROT_EXEC: u32 = 0x4;

/// Extend change to start of growsdown area (`mprotect` only).
pub const PROT_GROWSDOWN: u32 = 0x0100_0000;

/// Extend change to start of growsup area (`mprotect` only).
pub const PROT_GROWSUP: u32 = 0x0200_0000;

/// Every `PROT_*` flag.
pub const PROT_ALL: u32 = 0x0300_0007;

/// `PROT_*` flags; no flag at all stands for `PROT_NONE`.
#[derive(Clone, Copy, PartialEq, Eq, Structural, Debug)]
pub struct MmapProt {
    /// The flags as a word.
    pub bits: u32,
}

impl MmapProt {
    /// The flags of a word; nothing if a bit is unknown.
    pub open spec fn spec_from_bits(bits: u32) -> Option<MmapProt> {
        if bits & PROT_ALL == bits {
            Some(MmapProt { bits })
        } else {
            None
        }
    }

    /// The flags of a word; nothing if a bit is unknown.
    pub fn from_bits(bits: u32) -> (r: Option<MmapProt>)
        ensures
            r == MmapProt::spec_from_bits(bits),
            bits & PROT_ALL == bits ==> r == Some(MmapProt { bits }),
            bits & PROT_ALL != bits ==> r is None,
    {
        if bits & PROT_ALL == bits {
            Some(MmapProt { bits })
        } else {
            None
        }
    }

    /// The known flags of a word.
    pub open spec fn spec_truncate(bits: u32) -> MmapProt {
        MmapProt { bits: bits & PROT_ALL }
    }

    /// The known flags of a word.
    pub fn from_bits_truncate(bits: u32) -> (r: MmapProt)
        ensures
            r == MmapProt::spec_truncate(bits),
            r == (MmapProt { bits: bits & PROT_ALL }),
    {
        MmapProt { bits: bits & PROT_ALL }
    }

    /// Whether every bit of `mask` is set.
    pub open spec fn spec_has(self, mask: u32) -> bool {
        self.bits & mask == mask
    }

    /// Whether every bit of `mask` is set.
    #[verifier::when_used_as_spec(spec_has)]
    pub fn has(self, mask: u32) -> (r: bool)
        ensures
            r == self.has(mask),
    {
        self.bits & mask == mask
    }

    /// Page permissions for user memory with this protection.
    pub open spec fn to_mapping(self) -> MappingFlags {
        MappingFlags {
            bits: MAPPING_USER | (if self.has(PROT_READ) {
                MAPPING_READ
            } else {
                0
            }) | (if self.has(PROT_WRITE) {
                MAPPING_WRITE
            } else {
                0
            }) | (if self.has(PROT_EXEC) {
                MAPPING_EXECUTE
            } else {
                0
            }),
        }
    }

    /// The permissions that a protection gives: always user access, and reading, writing
    /// and executing exactly where the protection asks for it.
    pub proof fn law_to_mapping(self)
        ensures
            self.to_mapping().bits & MAPPING_USER == MAPPING_USER,
            self.to_mapping().bits & MAPPING_READ == MAPPING_READ <==> self.has(PROT_READ),
            self.to_mapping().writable() <==> self.has(PROT_WRITE),
            self.to_mapping().bits & MAPPING_EXECUTE == MAPPING_EXECUTE <==> self.has(PROT_EXEC),
            self.to_mapping().bits <= 0xf,
            permits(self.to_mapping(), self.bits),
    {
        let r: usize = if self.has(PROT_READ) {
            1
        } else {
            0
        };
        let w: usize = if self.has(PROT_WRITE) {
            2
        } else {
            0
        };
        let x: usize = if self.has(PROT_EXEC) {
            4
        } else {
            0
        };
        let m: usize = 0x8usize | r | w | x;
        assert(m & 8 == 8 && (m & 1 == 1 <==> r == 1) && (m & 2 == 2 <==> w == 2) && (m & 4 == 4
            <==> x == 4) && m <= 0xf) by (bit_vector)
            requires
                m == 0x8usize | r | w | x,
                r == 0 || r == 1,
                w == 0 || w == 2,
                x == 0 || x == 4,
        ;
    }
}

impl From<MmapProt> for MappingFlags {
    fn from(value: MmapProt) -> (r: MappingFlags) {
        let mut bits: usize = MAPPING_USER;
        assert(forall|b: usize| #[trigger] (b | 0usize) == b) by (bit_vector);
        if value.has(PROT_READ) {
            bits = bits | MAPPING_READ;
        }
        if value.has(PROT_WRITE) {
            bits = bits | MAPPING_WRITE;
        }
        if value.has(PROT_EXEC) {
            bits = bits | MAPPING_EXECUTE;
        }
        MappingFlags { bits }
    }
}

impl FromSpecImpl<MmapProt> for MappingFlags {
    open spec fn obeys_from_spec() -> bool {
        true
    }

    open spec fn from_spec(value: MmapProt) -> MappingFlags {
        value.to_mapping()
    }
}

/// Share changes.
pub const MAP_SHARED: u32 = 0x1;

/// Changes private; copy pages on write.
pub const MAP_PRIVATE: u32 = 0x2;

/// Share changes, but fail if the flags contain unknown ones.
pub const MAP_SHARED_VALIDATE: u32 = 0x3;

/// Mask for the type of mapping.
pub const MAP_TYPE: u32 = 0xf;

/// Map address must be exactly as requested, no matter whether it is available.
pub const MAP_FIXED: u32 = 0x10;

/// Don't use a file.
pub const MAP_ANONYMOUS: u32 = 0x20;

/// Deprecated flag.
pub const MAP_DENYWRITE: u32 = 0x800;

/// Don't check for reservations.
pub const MAP_NORESERVE: u32 = 0x4000;

/// Populate the mapping.
pub const MAP_POPULATE: u32 = 0x8000;

/// Allocation is for a stack.
pub const MAP_STACK: u32 = 0x2_0000;

/// Huge page.
pub const MAP_HUGETLB: u32 = 0x4_0000;

/// Same as `MAP_FIXED`, but the call fails instead of replacing an existing mapping.
pub const MAP_FIXED_NOREPLACE: u32 = 0x10_0000;

/// Huge page of one gigabyte, the huge page flag included.
pub const MAP_HUGETLB_1GB: u32 = 0x7804_0000;

/// Every `MAP_*` flag that is known.
pub const MAP_ALL: u32 = 0x7816_c83f;

/// Flags of an `mmap` call.
#[derive(Clone, Copy, PartialEq, Eq, Structural, Debug)]
pub struct MmapFlags {
    /// The flags as a word.
    pub bits: u32,
}

impl MmapFlags {
    /// The flags of a word; nothing if a bit is unknown.
    pub open spec fn spec_from_bits(bits: u32) -> Option<MmapFlags> {
        if bits & MAP_ALL == bits {
            Some(MmapFlags { bits })
        } else {
            None
        }
    }

    /// The flags of a word; nothing if a bit is unknown.
    pub fn from_bits(bits: u32) -> (r: Option<MmapFlags>)
        ensures
            r == MmapFlags::spec_from_bits(bits),
            bits & MAP_ALL == bits ==> r == Some(MmapFlags { bits }),
            bits & MAP_ALL != bits ==> r is None,
    {
        if bits & MAP_ALL == bits {
            Some(MmapFlags { bits })
        } else {
            None
        }
    }

    /// The known flags of a word.
    pub open spec fn spec_truncate(bits: u32) -> MmapFlags {
        MmapFlags { bits: bits & MAP_ALL }
    }

    /// The known flags of a word.
    pub fn from_bits_truncate(bits: u32) -> (r: MmapFlags)
        ensures
            r == MmapFlags::spec_truncate(bits),
            r == (MmapFlags { bits: bits & MAP_ALL }),
    {
        MmapFlags { bits: bits & MAP_ALL }
    }

    /// Whether every bit of `mask` is set.
    pub open spec fn spec_has(self, mask: u32) -> bool {
        self.bits & mask == mask
    }

    /// Whether every bit of `mask` is set.
    #[verifier::when_used_as_spec(spec_has)]
    pub fn has(self, mask: u32) -> (r: bool)
        ensures
            r == self.has(mask),
    {
        self.bits & mask == mask
    }
}

/// Dropping unknown flags keeps the type of the mapping and every known flag.
pub proof fn lemma_truncate_keeps_known(bits: u32, mask: u32)
    requires
        mask & MAP_ALL == mask,
    ensures
        (bits & MAP_ALL) & mask == bits & mask,
        (bits & MAP_ALL) & MAP_TYPE == bits & MAP_TYPE,
{
    assert((bits & 0x7816_c83fu32) & mask == bits & mask) by (bit_vector)
        requires
            mask & 0x7816_c83fu32 == mask,
    ;
    assert((bits & 0x7816_c83fu32) & 0xfu32 == bits & 0xfu32) by (bit_vector);
}

/// A word stands for a protection exactly if no bit but the five known ones is set, and
/// then for the one with the same bits. Of any other word these five bits are kept.
pub proof fn law_prot_words(bits: u32)
    ensures
        MmapProt::spec_from_bits(bits) is Some <==> bits & !0x0300_0007u32 == 0,
        MmapProt::spec_from_bits(bits) matches Some(prot) ==> prot.bits == bits,
        MmapProt::spec_truncate(bits).bits & !0x0300_0007u32 == 0,
        (MmapProt::spec_truncate(bits).bits ^ bits) & 0x0300_0007u32 == 0,
        PROT_READ == 1 && PROT_WRITE == 2 && PROT_EXEC == 4,
{
    assert((bits & 0x0300_0007u32 == bits <==> bits & !0x0300_0007u32 == 0) && (bits
        & 0x0300_0007u32) & !0x0300_0007u32 == 0 && ((bits & 0x0300_0007u32) ^ bits)
        & 0x0300_0007u32 == 0) by (bit_vector);
}

/// A word stands for `mmap` flags exactly if no bit but the known ones is set, and then for
/// those with the same bits. Of any other word the known bits are kept.
pub proof fn law_mmap_words(bits: u32)
    ensures
        MmapFlags::spec_from_bits(bits) is Some <==> bits & !0x7816_c83fu32 == 0,
        MmapFlags::spec_from_bits(bits) matches Some(flags) ==> flags.bits == bits,
        MmapFlags::spec_truncate(bits).bits & !0x7816_c83fu32 == 0,
        (MmapFlags::spec_truncate(bits).bits ^ bits) & 0x7816_c83fu32 == 0,
        MAP_SHARED == 1 && MAP_PRIVATE == 2 && MAP_SHARED_VALIDATE == 3,
        MAP_FIXED == 0x10 && MAP_ANONYMOUS == 0x20 && MAP_FIXED_NOREPLACE == 0x10_0000,
        MAP_HUGETLB == 1u32 << 18,
        MAP_HUGETLB_1GB == 1u32 << 18 | 30u32 << 26,
{
    assert((bits & 0x7816_c83fu32 == bits <==> bits & !0x7816_c83fu32 == 0) && (bits
        & 0x7816_c83fu32) & !0x7816_c83fu32 == 0 && ((bits & 0x7816_c83fu32) ^ bits)
        & 0x7816_c83fu32 == 0) by (bit_vector);
    assert(1u32 << 18 == 0x4_0000u32 && 1u32 << 18 | 30u32 << 26 == 0x7804_0000u32) by (bit_vector);
}

/// A word has a mask exactly if it has every bit of it.
pub proof fn law_has(prot: MmapProt, flags: MmapFlags, mask: u32)
    ensures
        prot.has(mask) <==> mask & !prot.bits == 0,
        flags.has(mask) <==> mask & !flags.bits == 0,
{
    let p = prot.bits;
    let f = flags.bits;
    assert((p & mask == mask <==> mask & !p == 0) && (f & mask == mask <==> mask & !f == 0))
        by (bit_vector);
}

} // verus!
