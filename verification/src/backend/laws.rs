//! What the operations of a mapping are, whatever backend is behind it.
use std::sync::Arc;

use vstd::prelude::*;

use crate::addr::{PageSize, VirtAddrRange};
use crate::backend::cow::outcome::initial_byte;
use crate::backend::cow::populate::CowPopulate;
use crate::backend::cow::unmap::CowUnmap;
use crate::backend::cow::zap::CowZap;
use crate::backend::cow::{CowFile, FileRef};
use crate::backend::shared::{SharedMap, SharedPages, SharedPopulate, SharedUnmap, SharedZap};
use crate::backend::vm_flags::{law_word_bits, law_words, VmFlags};
use crate::backend::{Backend, MapOp, PopulateOp, UnmapOp, ZapOp};
use crate::error::AxError;
use crate::flags::MappingFlags;

verus! {

/// New private memory has the given page size and no metadata flags. Without a file all its
/// bytes are zero at first. With one, the byte at an address is the byte of the file that is
/// as far behind the given position as the address is behind the start of the memory, up to
/// the given end and the end of the file, and zero elsewhere.
pub proof fn law_new_cow(
    anonymous: Backend,
    backend: Backend,
    start: usize,
    size: PageSize,
    file: FileRef,
    file_start: u64,
    file_end: Option<u64>,
    bytes: Seq<u8>,
    v: usize,
    i: int,
)
    requires
        anonymous.is_new_cow(start, size, None),
        backend.is_new_cow(start, size, Some(CowFile { file, start: file_start, end: file_end })),
        i >= 0,
    ensures
        anonymous.spec_page_size() == Some(size),
        backend.spec_page_size() == Some(size),
        anonymous.spec_vm_flags() matches Some(f) && f.bits == 0,
        backend.spec_vm_flags() matches Some(f) && f.bits == 0,
        anonymous matches Backend::Cow(b) && initial_byte(b, v, bytes, i) == 0,
        backend matches Backend::Cow(b) && b.file is Some && b.file.unwrap().file == file
            && initial_byte(b, v, bytes, i) == {
            let pos = file_start + (v + i - start);
            if v + i >= start && pos < bytes.len() && (file_end is None || pos
                < file_end.unwrap()) {
                bytes[pos]
            } else {
                0
            }
        },
{
    law_words(0);
}

/// New shared memory is made of the given frames, from the given address on, has their page
/// size, and of the metadata flags the one for shared memory alone.
pub proof fn law_new_shared(backend: Backend, start: usize, pages: Arc<SharedPages>)
    requires
        backend.is_new_shared(start, pages),
    ensures
        backend.spec_page_size() == Some(pages.size),
        backend.spec_vm_flags() matches Some(f) && f.bits == 1,
        backend matches Backend::Shared(b) && b.start == start && b.pages@ == pages@,
{
    law_words(1);
}

/// Mapping private memory takes no work, and it succeeds; shared memory is mapped at once.
/// Both are unmapped, discarded and populated at exactly the bytes that are asked for, with
/// their own page size and with the given permissions. Protecting and writing back take no
/// work, and succeed.
pub proof fn law_operations(
    backend: Backend,
    start: usize,
    size: usize,
    flags: MappingFlags,
    access: MappingFlags,
    range: VirtAddrRange,
)
    requires
        start + size <= usize::MAX,
        range.start == start,
        range.end == start + size,
    ensures
        backend matches Backend::Cow(b) ==> {
            &&& backend.spec_map(start, size, flags) == Some(MapOp::Ready(Ok::<(), AxError>(())))
            &&& backend.spec_unmap(start, size) == Some(UnmapOp::Cow(CowUnmap::of(range, b.size)))
            &&& backend.spec_zap(range) == Some(ZapOp::Cow(CowZap::of(range, b.size)))
            &&& backend.spec_populate(range, flags, access) == Some(
                PopulateOp::Cow(CowPopulate::of(b, range, flags, access)),
            )
        },
        backend matches Backend::Shared(b) ==> {
            &&& backend.spec_map(start, size, flags) == Some(
                MapOp::Shared(SharedMap::of(b, range, flags)),
            )
            &&& backend.spec_unmap(start, size) == Some(
                UnmapOp::Shared(SharedUnmap::of(range, b.pages.size)),
            )
            &&& backend.spec_zap(range) == Some(
                ZapOp::Shared(SharedZap::of(range, b.pages.size)),
            )
            &&& backend.spec_populate(range, flags, access) == Some(
                PopulateOp::Shared(SharedPopulate::of(b, range, flags, access)),
            )
        },
        backend is Cow || backend is Shared ==> backend.spec_nothing_to_do() == Some(
            Ok::<(), AxError>(()),
        ),
        backend is Linear || backend is File ==> {
            &&& backend.spec_map(start, size, flags) is None
            &&& backend.spec_unmap(start, size) is None
            &&& backend.spec_zap(range) is None
            &&& backend.spec_populate(range, flags, access) is None
            &&& backend.spec_nothing_to_do() is None
            &&& backend.spec_page_size() is None
            &&& backend.spec_vm_flags() is None
        },
{
}

/// Setting flags sets each of their bits and clearing flags clears each of them; every other
/// bit stays as it is.
pub proof fn law_set_vm_flags(word: u32, flags: VmFlags, i: u32)
    requires
        i < 32,
    ensures
        (Backend::spec_new_word(word, flags, true) >> i) & 1 == 1 <==> (word >> i) & 1 == 1 || (
        flags.bits >> i) & 1 == 1,
        (Backend::spec_new_word(word, flags, false) >> i) & 1 == 1 <==> (word >> i) & 1 == 1 && (
        flags.bits >> i) & 1 == 0,
{
    law_word_bits(word, flags, i);
}

/// The duplicate of shared memory has the same flags and page size, and maps every page of
/// every range to the same frame as the memory itself.
pub proof fn law_duplicate(backend: Backend, start: usize, size: usize, flags: MappingFlags)
    requires
        backend is Shared,
    ensures
        backend.spec_duplicate() is Shared,
        backend.spec_duplicate().spec_vm_flags() == backend.spec_vm_flags(),
        backend.spec_duplicate().spec_page_size() == backend.spec_page_size(),
        backend.spec_duplicate().spec_map(start, size, flags) == backend.spec_map(
            start,
            size,
            flags,
        ),
        (backend matches Backend::Shared(b) && backend.spec_duplicate() matches Backend::Shared(
            b2,
        ) && b2.start == b.start && b2.pages@ == b.pages@),
{
}

} // verus!
