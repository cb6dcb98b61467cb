//! Metadata flags of a mapping.
use vstd::prelude::*;

verus! {

/// Mapping is shared (`MAP_SHARED`).
pub const VM_SHARED: u32 = 0x1;

/// Stack grows downward (`MAP_GROWSDOWN`).
pub const VM_GROWSDOWN: u32 = 0x2;

/// Do not copy on fork (`MADV_DONTFORK`).
pub const VM_DONTCOPY: u32 = 0x4;

/// Pages are locked in memory (`MAP_LOCKED`, `mlock`).
pub const VM_LOCKED: u32 = 0x8;

/// Do not expand with `mremap`.
pub const VM_DONTEXPAND: u32 = 0x10;

/// Exclude from core dumps (`MADV_DONTDUMP`).
pub const VM_DONTDUMP: u32 = 0x20;

/// Zero pages on fork (`MADV_WIPEONFORK`).
pub const VM_WIPEONFORK: u32 = 0x40;

/// Huge page mapping (`MAP_HUGETLB`).
pub const VM_HUGETLB: u32 = 0x80;

/// Every flag.
pub const VM_ALL: u32 = 0xff;

/// Metadata flags of a mapping, mirroring the `VM_*` flags of Linux.
#[derive(Clone, Copy, PartialEq, Eq, Structural, Debug)]
pub struct VmFlags {
    /// The flags as a word.
    pub bits: u32,
}

impl VmFlags {
    /// Only known flags are set.
    pub open spec fn known(self) -> bool {
        self.bits & VM_ALL == self.bits
    }

    /// No flags.
    pub fn empty() -> (r: VmFlags)
        ensures
            r.bits == 0,
            r.known(),
    {
        assert(0u32 & 0xffu32 == 0u32) by (bit_vector);
        VmFlags { bits: 0 }
    }

    /// The flags of a word; nothing if a bit is unknown.
    pub open spec fn spec_from_bits(bits: u32) -> Option<VmFlags> {
        if bits & VM_ALL == bits {
            Some(VmFlags { bits })
        } else {
            None
        }
    }

    /// The flags of a word; nothing if a bit is unknown.
    pub fn from_bits(bits: u32) -> (r: Option<VmFlags>)
        ensures
            r == VmFlags::spec_from_bits(bits),
            bits & VM_ALL == bits ==> r == Some(VmFlags { bits }),
            bits & VM_ALL != bits ==> r is None,
    {
        if bits & VM_ALL == bits {
            Some(VmFlags { bits })
        } else {
            None
        }
    }

    /// The known flags of a word.
    pub open spec fn spec_truncate(bits: u32) -> VmFlags {
        VmFlags { bits: bits & VM_ALL }
    }

    /// The known flags of a word.
    pub fn from_bits_truncate(bits: u32) -> (r: VmFlags)
        ensures
            r == VmFlags::spec_truncate(bits),
            r.bits == bits & VM_ALL,
            r.known(),
    {
        assert((bits & 0xffu32) & 0xffu32 == bits & 0xffu32) by (bit_vector);
        VmFlags { bits: bits & VM_ALL }
    }

    /// The flags as a word.
    pub fn bits(&self) -> (r: u32)
        ensures
            r == self.bits,
    {
        self.bits
    }

    /// Whether every flag of `other` is set.
    pub open spec fn spec_contains(self, other: VmFlags) -> bool {
        self.bits & other.bits == other.bits
    }

    /// Whether every flag of `other` is set.
    #[verifier::when_used_as_spec(spec_contains)]
    pub fn contains(self, other: VmFlags) -> (r: bool)
        ensures
            r == self.contains(other),
    {
        self.bits & other.bits == other.bits
    }
}

/// Storage for `VmFlags` that flags are set in and cleared from one word at a time.
///
/// Each operation is a single read or update of the word, and takes the storage for itself
/// to update it. The word is a plain one: callers that share a mapping between threads keep
/// the storage behind a lock, which makes the operations atomic.
#[derive(Debug)]
pub struct AtomicVmFlags {
    word: u32,
}

impl View for AtomicVmFlags {
    type V = u32;

    closed spec fn view(&self) -> u32 {
        self.word
    }
}

/// A word with flags set in it.
pub open spec fn word_with(word: u32, flags: VmFlags) -> u32 {
    word | flags.bits
}

/// A word with flags cleared from it.
pub open spec fn word_without(word: u32, flags: VmFlags) -> u32 {
    word & !flags.bits
}

impl AtomicVmFlags {
    /// Storage that holds `flags`.
    pub fn new(flags: VmFlags) -> (r: AtomicVmFlags)
        ensures
            r@ == flags.bits,
    {
        AtomicVmFlags { word: flags.bits() }
    }

    /// The flags held.
    pub fn load(&self) -> (r: VmFlags)
        ensures
            r == VmFlags::spec_truncate(self@),
            r.bits == self@ & VM_ALL,
            r.known(),
    {
        VmFlags::from_bits_truncate(self.word)
    }

    /// Sets flags.
    pub fn insert(&mut self, flags: VmFlags)
        ensures
            final(self)@ == word_with(old(self)@, flags),
            final(self)@ == old(self)@ | flags.bits,
    {
        self.word = self.word | flags.bits();
    }

    /// Clears flags.
    pub fn remove(&mut self, flags: VmFlags)
        ensures
            final(self)@ == word_without(old(self)@, flags),
            final(self)@ == old(self)@ & !flags.bits,
    {
        self.word = self.word & !flags.bits();
    }
}

impl Clone for AtomicVmFlags {
    fn clone(&self) -> (r: AtomicVmFlags)
        ensures
            r == *self,
    {
        AtomicVmFlags { word: self.word }
    }
}

impl Default for AtomicVmFlags {
    fn default() -> (r: AtomicVmFlags)
        ensures
            r@ == 0,
    {
        AtomicVmFlags::new(VmFlags::empty())
    }
}

/// After setting flags they are all held, and every other flag is as it was.
pub proof fn law_insert_then_load(word: u32, flags: u32, other: u32)
    requires
        flags & VM_ALL == flags,
    ensures
        ((word | flags) & VM_ALL) & flags == flags,
        other & flags == 0 ==> ((word | flags) & VM_ALL) & other == (word & VM_ALL) & other,
{
    assert(((word | flags) & 0xffu32) & flags == flags) by (bit_vector)
        requires
            flags & 0xffu32 == flags,
    ;
    assert(other & flags == 0 ==> ((word | flags) & 0xffu32) & other == (word & 0xffu32) & other)
        by (bit_vector);
}

/// After clearing flags none of them is held, and every other flag is as it was.
pub proof fn law_remove_then_load(word: u32, flags: u32, other: u32)
    ensures
        ((word & !flags) & VM_ALL) & flags == 0,
        other & flags == 0 ==> ((word & !flags) & VM_ALL) & other == (word & VM_ALL) & other,
{
    assert(((word & !flags) & 0xffu32) & flags == 0) by (bit_vector);
    assert(other & flags == 0 ==> ((word & !flags) & 0xffu32) & other == (word & 0xffu32) & other)
        by (bit_vector);
}

/// Clearing flags that were not set before undoes setting them.
pub proof fn law_remove_undoes_insert(word: u32, flags: u32)
    requires
        word & flags == 0,
    ensures
        (word | flags) & !flags == word,
{
    assert((word | flags) & !flags == word) by (bit_vector)
        requires
            word & flags == 0,
    ;
}

/// The flags are single bits, each of its own, and together they are all known ones.
pub proof fn law_flag_bits()
    ensures
        VM_SHARED == 1u32 << 0,
        VM_GROWSDOWN == 1u32 << 1,
        VM_DONTCOPY == 1u32 << 2,
        VM_LOCKED == 1u32 << 3,
        VM_DONTEXPAND == 1u32 << 4,
        VM_DONTDUMP == 1u32 << 5,
        VM_WIPEONFORK == 1u32 << 6,
        VM_HUGETLB == 1u32 << 7,
        VM_ALL == (1u32 << 8) - 1,
{
    assert(1u32 << 0 == 0x1 && 1u32 << 1 == 0x2 && 1u32 << 2 == 0x4 && 1u32 << 3 == 0x8 && 1u32
        << 4 == 0x10 && 1u32 << 5 == 0x20 && 1u32 << 6 == 0x40 && 1u32 << 7 == 0x80 && 1u32 << 8
        == 0x100) by (bit_vector);
}

/// A word stands for flags exactly if its upper 24 bits are clear, and then for the flags
/// with the same bits. Of any other word the lower eight bits are kept.
pub proof fn law_words(bits: u32)
    ensures
        VmFlags::spec_from_bits(bits) is Some <==> bits < 0x100,
        VmFlags::spec_from_bits(bits) matches Some(flags) ==> flags.bits == bits,
        VmFlags::spec_truncate(bits).bits == bits % 0x100,
{
    assert((bits & 0xffu32 == bits <==> bits < 0x100) && bits & 0xffu32 == bits % 0x100)
        by (bit_vector);
}

/// Bit `i` is set in a word with flags if it was or is one of them, and in a word without
/// flags if it was and is none of them. Flags contain others if they have each of their bits.
pub proof fn law_word_bits(word: u32, flags: VmFlags, i: u32)
    requires
        i < 32,
    ensures
        (word_with(word, flags) >> i) & 1 == 1 <==> (word >> i) & 1 == 1 || (flags.bits >> i) & 1
            == 1,
        (word_without(word, flags) >> i) & 1 == 1 <==> (word >> i) & 1 == 1 && (flags.bits >> i)
            & 1 == 0,
        (VmFlags { bits: word }).contains(flags) && (flags.bits >> i) & 1 == 1 ==> (word >> i) & 1
            == 1,
        (VmFlags { bits: word }).contains(flags) <==> flags.bits & !word == 0,
{
    let f = flags.bits;
    assert(((word | f) >> i) & 1 == 1 <==> (word >> i) & 1 == 1 || (f >> i) & 1 == 1)
        by (bit_vector)
        requires
            i < 32,
    ;
    assert(((word & !f) >> i) & 1 == 1 <==> (word >> i) & 1 == 1 && (f >> i) & 1 == 0)
        by (bit_vector)
        requires
            i < 32,
    ;
    assert((word & f == f && (f >> i) & 1 == 1 ==> (word >> i) & 1 == 1) && (word & f == f <==> f
        & !word == 0)) by (bit_vector)
        requires
            i < 32,
    ;
}

} // verus!
