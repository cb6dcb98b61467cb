//! Memory mappings of a kernel: what is behind them and the system calls that change them.
//!
//! The decisions are made here; page tables, frames, files and user memory belong to the
//! caller. An operation is a value that says what to do next, and it goes on with the
//! answer to that. The contracts say for each operation what it asks for, how it goes on
//! and how it ends, and laws about whole runs are proved from them.
//!
//! * [`backend`]: copy-on-write and shared mappings, and the reference counts of frames.
//! * [`syscall`]: `mmap`, `munmap`, `mprotect`, `mremap`, `madvise`, `msync`, the `mlock`
//!   family, `process_vm_readv` and `process_vm_writev`.
//! * [`addr`], [`flags`] and [`error`]: ranges and pages, permissions, and error codes.
pub mod addr;
pub mod error;
pub mod flags;
pub mod backend;
pub mod syscall;
