# starry_mm

The memory mappings of a kernel, with proofs: what is behind a mapping, and the system calls
that change mappings.

* `src/` is the library. It makes the decisions and is verified with Verus.
  * `addr`, `flags`, `error`: pages and ranges, permissions, error codes.
  * `backend`: copy-on-write and shared mappings, and the reference counts of frames.
    `backend/cow/{laws,contents,accounting}.rs` and `backend/shared/laws.rs` say what complete
    operations do to page tables, counts, the contents of pages and the frames given back.
  * `syscall`: `mmap`, `munmap`, `mprotect`, `mremap`, `madvise`, `msync`, the `mlock` family,
    `process_vm_readv` and `process_vm_writev`.
* `app/` carries the decisions out: it drives the operations on page tables, frames, files
  and user memory, and keeps the locks. The kernel provides those through traits.
* `tests/` runs the library on concrete values.

An operation is a value. It says what to do next; its driver does that and hands the answer
back, until the operation is over. So page tables, allocators and files never appear in the
library, and every answer that they can give is covered by the contracts.

What is believed without proof: the contracts of the functions of `memory_addr` that
round addresses and test their alignment (`src/addr.rs`), of the hash map of `hashbrown`
(`src/backend/frames.rs`) and of `Arc::clone` (`src/backend/shared/mod.rs`).
