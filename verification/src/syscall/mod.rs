//! System calls for memory management.
//!
//! A system call checks its arguments and then asks for work on the address space step by
//! step. Each step is a value that says what to do; its caller does it and hands the
//! result back with `resume`, until the step is `Done`. A result of another kind than the
//! step asks for leaves it as it is.
pub mod area;
pub mod area_laws;
pub mod iovec;
pub mod mmap;
pub mod mmap_laws;
pub mod mremap;
pub mod mremap_laws;
pub mod process_vm;
pub mod process_vm_laws;
pub mod transfer_data;
