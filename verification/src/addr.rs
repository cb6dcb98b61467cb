//! Addresses, page sizes and page-aligned ranges.
//!
//! Virtual and physical addresses are plain `usize` values.
use vstd::arithmetic::power2::is_pow2;
use vstd::prelude::*;

use crate::error::{AxError, AxResult};

verus! {

/// Contract of `memory_addr::align_down`: for a power of two `align`, the greatest
/// multiple of `align` that is not above `addr`.
pub assume_specification[ memory_addr::align_down ](addr: usize, align: usize) -> (r: usize)
    requires
        is_pow2(align as int),
    ensures
        r == addr - addr % align,
;

/// Contract of `memory_addr::align_up`: for a power of two `align`, the smallest
/// multiple of `align` that is not below `addr`. It computes `addr + align` on the way,
/// which has to fit in a `usize`.
pub assume_specification[ memory_addr::align_up ](addr: usize, align: usize) -> (r: usize)
    requires
        is_pow2(align as int),
        addr + align <= usize::MAX,
    ensures
        r == align_up_to(addr as int, align as int),
;

/// Contract of `memory_addr::is_aligned`: for a power of two `align`, whether `addr`
/// is a multiple of it.
pub assume_specification[ memory_addr::is_aligned ](addr: usize, align: usize) -> (r: bool)
    requires
        is_pow2(align as int),
    ensures
        r == (addr % align == 0),
;

/// Contract of `memory_addr::align_up_4k`: the smallest multiple of 4096 that is not
/// below `addr`. It computes `addr + 4096` on the way, which has to fit in a `usize`.
pub assume_specification[ memory_addr::align_up_4k ](addr: usize) -> (r: usize)
    requires
        addr + 0x1000 <= usize::MAX,
    ensures
        r == align_up_to(addr as int, 0x1000),
;

/// Contract of `memory_addr::is_aligned_4k`: whether `addr` is a multiple of 4096.
pub assume_specification[ memory_addr::is_aligned_4k ](addr: usize) -> (r: bool)
    ensures
        r == (addr % 0x1000 == 0),
;

/// The smallest multiple of `align` that is not below `addr`.
pub open spec fn align_up_to(addr: int, align: int) -> int {
    if addr % align == 0 {
        addr
    } else {
        addr - addr % align + align
    }
}

/// The greatest multiple of `align` that is not above `addr`.
pub open spec fn align_down_to(addr: int, align: int) -> int {
    addr - addr % align
}

/// Size of a 4K page in bytes.
pub const PAGE_SIZE_4K: usize = 0x1000;

/// The page sizes that a page table supports.
#[derive(Clone, Copy, PartialEq, Eq, Structural, Debug)]
pub enum PageSize {
    /// 4 kilobytes.
    Size4K,
    /// 1 megabyte.
    Size1M,
    /// 2 megabytes.
    Size2M,
    /// 1 gigabyte.
    Size1G,
}

impl PageSize {
    /// The size in bytes.
    pub open spec fn spec_bytes(self) -> usize {
        match self {
            PageSize::Size4K => 0x1000,
            PageSize::Size1M => 0x10_0000,
            PageSize::Size2M => 0x20_0000,
            PageSize::Size1G => 0x4000_0000,
        }
    }

    /// The size in bytes.
    #[verifier::when_used_as_spec(spec_bytes)]
    pub fn bytes(self) -> (r: usize)
        ensures
            r == self.bytes(),
    {
        match self {
            PageSize::Size4K => 0x1000,
            PageSize::Size1M => 0x10_0000,
            PageSize::Size2M => 0x20_0000,
            PageSize::Size1G => 0x4000_0000,
        }
    }

    /// The exponent of the size.
    pub open spec fn shift(self) -> nat {
        match self {
            PageSize::Size4K => 12,
            PageSize::Size1M => 20,
            PageSize::Size2M => 21,
            PageSize::Size1G => 30,
        }
    }

    /// Every page size is a power of two and a multiple of the 4K page.
    pub proof fn lemma_bytes(self)
        ensures
            is_pow2(self.bytes() as int),
            self.bytes() == vstd::arithmetic::power2::pow2(self.shift()),
            self.bytes() % 0x1000 == 0,
    {
        vstd::arithmetic::power2::lemma2_to64();
        vstd::arithmetic::power::lemma_pow_positive(2, self.shift());
        assert(vstd::arithmetic::power::pow(2, self.shift()) == self.bytes());
        vstd::arithmetic::power2::is_pow2_equiv(self.bytes() as int);
    }

    /// Whether an address or a size is a multiple of the page size.
    pub fn is_aligned(self, addr_or_size: usize) -> (r: bool)
        ensures
            r == (addr_or_size % self.bytes() == 0),
    {
        proof {
            self.lemma_bytes();
        }
        memory_addr::is_aligned(addr_or_size, self.bytes())
    }
}

/// A half-open range of virtual addresses.
#[derive(Clone, Copy, PartialEq, Eq, Structural, Debug)]
pub struct VirtAddrRange {
    /// First address of the range.
    pub start: usize,
    /// First address behind the range.
    pub end: usize,
}

impl VirtAddrRange {
    /// The range of `size` bytes from `start` on.
    pub fn from_start_size(start: usize, size: usize) -> (r: VirtAddrRange)
        requires
            start + size <= usize::MAX,
        ensures
            r.start == start,
            r.end == start + size,
    {
        VirtAddrRange { start, end: start + size }
    }
}

/// The pages of an aligned range that are still to be visited, in ascending order.
#[derive(Clone, Copy, PartialEq, Eq, Structural, Debug)]
pub struct Pages {
    /// The page to visit next.
    pub next: usize,
    /// End of the range.
    pub end: usize,
    /// Size of each page.
    pub size: PageSize,
}

impl Pages {
    /// Both bounds are multiples of the page size.
    pub open spec fn wf(self) -> bool {
        &&& self.next % self.size.bytes() == 0
        &&& self.end % self.size.bytes() == 0
    }

    /// Whether no page is left.
    pub open spec fn spec_is_empty(self) -> bool {
        self.next >= self.end
    }

    /// Number of pages left.
    pub open spec fn count(self) -> nat {
        if self.next >= self.end {
            0
        } else {
            ((self.end - self.next) / (self.size.bytes() as int)) as nat
        }
    }

    /// The addresses of the pages left, lowest first.
    pub open spec fn addrs(self) -> Seq<usize> {
        Seq::new(self.count(), |i: int| (self.next + i * self.size.bytes()) as usize)
    }

    /// The pages behind the next one.
    pub open spec fn spec_rest(self) -> Pages {
        Pages { next: (self.next + self.size.bytes()) as usize, end: self.end, size: self.size }
    }

    /// Whether `addr` is one of the pages left.
    pub open spec fn has(self, addr: usize) -> bool {
        &&& self.next <= addr < self.end
        &&& addr % self.size.bytes() == 0
    }

    /// Whether no page is left.
    #[verifier::when_used_as_spec(spec_is_empty)]
    pub fn is_empty(self) -> (r: bool)
        ensures
            r == self.is_empty(),
    {
        self.next >= self.end
    }

    /// Moves past the next page.
    pub fn rest(self) -> (r: Pages)
        requires
            self.wf(),
            !self.is_empty(),
        ensures
            r == self.spec_rest(),
            r.wf(),
            r.addrs() == self.addrs().drop_first(),
    {
        proof {
            self.lemma_rest();
        }
        Pages { next: self.next + self.size.bytes(), end: self.end, size: self.size }
    }

    /// Taking the next page off a non-empty range leaves an aligned range with one page
    /// less, and does not overflow.
    pub proof fn lemma_rest(self)
        requires
            self.wf(),
            !self.is_empty(),
        ensures
            self.next + self.size.bytes() <= self.end,
            self.spec_rest().wf(),
            self.count() == self.spec_rest().count() + 1,
            self.addrs().len() > 0,
            self.addrs()[0] == self.next,
            self.spec_rest().addrs() == self.addrs().drop_first(),
            self.has(self.next),
            forall|a: usize| #[trigger] self.has(a) <==> a == self.next || self.spec_rest().has(a),
            !self.spec_rest().has(self.next),
    {
        let s = self.size.bytes() as int;
        let n = self.next as int;
        let e = self.end as int;
        assert(n + s <= e && (n + s) % s == 0 && (e - n) / s == (e - (n + s)) / s + 1 && (e - n) % s
            == 0) by (nonlinear_arith)
            requires
                s == 0x1000 || s == 0x10_0000 || s == 0x20_0000 || s == 0x4000_0000,
                n % s == 0,
                e % s == 0,
                0 <= n < e,
        ;
        assert((e - n) / s >= 1) by (nonlinear_arith)
            requires
                e - n >= s,
                s > 0,
        ;
        assert forall|a: usize| #[trigger] self.has(a) implies a == self.next
            || self.spec_rest().has(a) by {
            let b = a as int;
            assert(b == n || b >= n + s) by (nonlinear_arith)
                requires
                    s == 0x1000 || s == 0x10_0000 || s == 0x20_0000 || s == 0x4000_0000,
                    n % s == 0,
                    b % s == 0,
                    b >= n,
            ;
        }
        let r = self.spec_rest();
        assert(r.addrs() =~= self.addrs().drop_first()) by {
            assert forall|i: int| 0 <= i < r.count() implies r.addrs()[i]
                == self.addrs().drop_first()[i] by {
                assert((n + s) + i * s == n + (i + 1) * s) by (nonlinear_arith);
            }
        }
    }
}

impl Pages {
    /// There are fewer pages than addresses.
    pub proof fn lemma_count(self)
        ensures
            self.count() <= usize::MAX,
    {
        let s = self.size.bytes() as int;
        let d = self.end - self.next;
        if d > 0 {
            assert(d / s <= d) by (nonlinear_arith)
                requires
                    d > 0,
                    s > 0,
            ;
        }
    }
}

/// Splits a range into pages of the given size. Fails if a bound is not aligned.
pub fn pages_in(range: VirtAddrRange, align: PageSize) -> (r: AxResult<Pages>)
    ensures
        r == spec_pages_in(range, align),
        r matches Ok(pages) ==> pages.wf(),
{
    if !align.is_aligned(range.start) || !align.is_aligned(range.end) {
        return Err(AxError::InvalidInput);
    }
    Ok(Pages { next: range.start, end: range.end, size: align })
}

/// The pages of a range with aligned bounds; an error for any other range.
pub open spec fn spec_pages_in(range: VirtAddrRange, align: PageSize) -> AxResult<Pages> {
    if range.start % align.bytes() == 0 && range.end % align.bytes() == 0 {
        Ok(Pages { next: range.start, end: range.end, size: align })
    } else {
        Err(AxError::InvalidInput)
    }
}

/// Number of pages of a size that make up `size` bytes.
pub fn divide_page(size: usize, page_size: PageSize) -> (r: usize)
    requires
        size % page_size.bytes() == 0,
    ensures
        r == size / page_size.bytes(),
        r * page_size.bytes() == size,
{
    let s: usize = page_size.bytes();
    assert((size / s) * s == size) by (nonlinear_arith)
        requires
            size % s == 0,
            s > 0,
    ;
    size / s
}

/// The page sizes in bytes.
pub proof fn law_page_bytes(size: PageSize)
    ensures
        size.bytes() == match size {
            PageSize::Size4K => 4 * 1024usize,
            PageSize::Size1M => 1024 * 1024usize,
            PageSize::Size2M => 2 * 1024 * 1024usize,
            PageSize::Size1G => 1024 * 1024 * 1024usize,
        },
{
}

/// Rounding gives the nearest multiples: the one below is at most the address and less than
/// a step away, and so is the one above, which is the address itself if that is a multiple.
pub proof fn law_align(addr: int, align: int)
    requires
        addr >= 0,
        align > 0,
    ensures
        align_down_to(addr, align) % align == 0,
        align_down_to(addr, align) <= addr < align_down_to(addr, align) + align,
        align_up_to(addr, align) % align == 0,
        addr <= align_up_to(addr, align) < addr + align,
{
    let q = addr / align;
    vstd::arithmetic::div_mod::lemma_fundamental_div_mod(addr, align);
    vstd::arithmetic::div_mod::lemma_mod_bound(addr, align);
    vstd::arithmetic::div_mod::lemma_mod_multiples_basic(q, align);
    vstd::arithmetic::div_mod::lemma_mod_multiples_basic(q + 1, align);
    assert(align * q == q * align && (q + 1) * align == q * align + align) by (nonlinear_arith);
}

/// Number of pages of an aligned range.
pub open spec fn page_count(range: VirtAddrRange, size: PageSize) -> int {
    if range.start < range.end {
        (range.end - range.start) / (size.bytes() as int)
    } else {
        0
    }
}

/// Whether `v` is the address of a page of an aligned range.
pub open spec fn in_range(range: VirtAddrRange, size: PageSize, v: usize) -> bool {
    range.start <= v < range.end && v % size.bytes() == 0
}

/// Whether both bounds of a range are multiples of a page size.
pub open spec fn aligned(range: VirtAddrRange, size: PageSize) -> bool {
    range.start % size.bytes() == 0 && range.end % size.bytes() == 0
}

/// Exactly the ranges with aligned bounds have pages. The pages are those from the start of
/// the range on, one after the other, up to its end.
pub proof fn law_pages(range: VirtAddrRange, size: PageSize)
    ensures
        !aligned(range, size) ==> spec_pages_in(range, size) == Err::<Pages, AxError>(
            AxError::InvalidInput,
        ),
        aligned(range, size) ==> {
            &&& spec_pages_in(range, size) is Ok
            &&& ({
                let pages = spec_pages_in(range, size)->Ok_0;
                &&& pages.wf()
                &&& pages.size == size
                &&& pages.is_empty() <==> range.start >= range.end
                &&& pages.count() == page_count(range, size)
                &&& pages.addrs().len() == page_count(range, size)
                &&& forall|i: int|
                    0 <= i < page_count(range, size) ==> #[trigger] pages.addrs()[i] == range.start
                        + i * size.bytes()
                &&& forall|v: usize| #[trigger] pages.has(v) <==> in_range(range, size, v)
            })
        },
{
    if aligned(range, size) && range.start < range.end {
        let s = size.bytes() as int;
        let d = range.end - range.start;
        let pages = spec_pages_in(range, size)->Ok_0;
        assert forall|i: int| 0 <= i < page_count(range, size) implies #[trigger] pages.addrs()[i]
            == range.start + i * s by {
            assert(0 <= i * s <= d) by (nonlinear_arith)
                requires
                    0 <= i < d / s,
                    s > 0,
                    d > 0,
            ;
        }
    }
}

} // verus!
