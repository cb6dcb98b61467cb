use starry_mm::addr::{divide_page, pages_in, PageSize, Pages, VirtAddrRange, PAGE_SIZE_4K};
use starry_mm::backend::ops::frame_layout;
use starry_mm::error::{AxError, PagingError};

fn all(mut pages: Pages) -> Vec<usize> {
    let mut v = Vec::new();
    while !pages.is_empty() {
        v.push(pages.next);
        pages = pages.rest();
    }
    v
}

#[test]
fn page_sizes() {
    assert_eq!(PageSize::Size4K.bytes(), memory_addr::PAGE_SIZE_4K);
    assert_eq!(PageSize::Size2M.bytes(), memory_addr::PAGE_SIZE_2M);
    assert_eq!(PageSize::Size1G.bytes(), memory_addr::PAGE_SIZE_1G);
    assert_eq!(PageSize::Size1M.bytes(), 0x10_0000);
    assert!(PageSize::Size2M.is_aligned(0x60_0000));
    assert!(!PageSize::Size2M.is_aligned(0x61_0000));
}

#[test]
fn pages_of_a_range_are_those_of_the_iterator() {
    let range = VirtAddrRange { start: 0x1000, end: 0x5000 };
    let pages = pages_in(range, PageSize::Size4K).unwrap();
    let expected: Vec<usize> =
        memory_addr::DynPageIter::<usize>::new(0x1000, 0x5000, 0x1000).unwrap().collect();
    assert_eq!(all(pages), expected);
    assert_eq!(expected, vec![0x1000, 0x2000, 0x3000, 0x4000]);
    let empty = pages_in(VirtAddrRange { start: 0x3000, end: 0x1000 }, PageSize::Size4K).unwrap();
    assert_eq!(all(empty), Vec::<usize>::new());
    let high = VirtAddrRange { start: usize::MAX - 0x2fff, end: usize::MAX - 0xfff };
    assert_eq!(
        all(pages_in(high, PageSize::Size4K).unwrap()),
        vec![usize::MAX - 0x2fff, usize::MAX - 0x1fff]
    );
}

#[test]
fn unaligned_ranges_have_no_pages() {
    let bad = |start, end, size| pages_in(VirtAddrRange { start, end }, size);
    assert_eq!(bad(0x1001, 0x3000, PageSize::Size4K), Err(AxError::InvalidInput));
    assert_eq!(bad(0x1000, 0x3001, PageSize::Size4K), Err(AxError::InvalidInput));
    assert_eq!(bad(0x1000, 0x20_0000, PageSize::Size2M), Err(AxError::InvalidInput));
    assert!(memory_addr::DynPageIter::<usize>::new(0x1000, 0x20_0000, 0x20_0000).is_none());
    assert!(bad(0x20_0000, 0x40_0000, PageSize::Size2M).is_ok());
}

#[test]
fn dividing_into_pages() {
    assert_eq!(divide_page(0, PageSize::Size4K), 0);
    assert_eq!(divide_page(0x5000, PageSize::Size4K), 5);
    assert_eq!(divide_page(0x60_0000, PageSize::Size2M), 3);
}

#[test]
fn frame_layouts() {
    let small = frame_layout(PageSize::Size4K);
    assert_eq!((small.num_pages, small.align), (1, PAGE_SIZE_4K));
    let huge = frame_layout(PageSize::Size2M);
    assert_eq!((huge.num_pages, huge.align), (512, 0x20_0000));
}

#[test]
fn range_from_start_and_size() {
    let r = VirtAddrRange::from_start_size(0x1000, 0x2000);
    assert_eq!((r.start, r.end), (0x1000, 0x3000));
}

#[test]
fn paging_errors_as_callers_see_them() {
    assert_eq!(PagingError::NoMemory.to_ax(), AxError::NoMemory);
    assert_eq!(PagingError::NotMapped.to_ax(), AxError::InvalidInput);
    assert_eq!(PagingError::AlreadyMapped.to_ax(), AxError::InvalidInput);
    assert_eq!(PagingError::NotAligned.to_ax(), AxError::InvalidInput);
    assert_eq!(PagingError::MappedToHugePage.to_ax(), AxError::InvalidInput);
}
