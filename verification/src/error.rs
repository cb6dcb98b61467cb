//! Error types shared by the memory management code.
use vstd::prelude::*;

verus! {

/// The error of a memory management operation.
#[derive(Clone, Copy, PartialEq, Eq, Structural, Debug)]
pub enum AxError {
    /// Invalid parameter or argument.
    InvalidInput,
    /// Not enough memory or address space.
    NoMemory,
    /// An address that does not belong to the caller or to the frame table.
    BadAddress,
    /// The combination of flags is not supported.
    OperationNotSupported,
    /// The file cannot be mapped.
    NoSuchDevice,
    /// The caller lacks a privilege.
    PermissionDenied,
    /// Any other error of a kernel service, by its code.
    Other(i32),
}

/// The result of a memory management operation.
pub type AxResult<T> = Result<T, AxError>;

/// The error of a page table operation.
#[derive(Clone, Copy, PartialEq, Eq, Structural, Debug)]
pub enum PagingError {
    /// Cannot allocate memory for a table.
    NoMemory,
    /// The address is not aligned to the page size.
    NotAligned,
    /// The mapping is not present.
    NotMapped,
    /// The mapping is already present.
    AlreadyMapped,
    /// The entry represents a huge page.
    MappedToHugePage,
}

/// The result of a page table operation.
pub type PagingResult<T> = Result<T, PagingError>;

impl PagingError {
    /// The error that a caller of the memory management code sees: lack of memory
    /// stays what it is, everything else is an invalid input.
    pub open spec fn spec_to_ax(self) -> AxError {
        if self is NoMemory {
            AxError::NoMemory
        } else {
            AxError::InvalidInput
        }
    }

    /// Converts a page table error to the error that callers see.
    pub fn to_ax(self) -> (r: AxError)
        ensures
            r == self.spec_to_ax(),
    {
        match self {
            PagingError::NoMemory => AxError::NoMemory,
            _ => AxError::InvalidInput,
        }
    }
}

/// Callers learn of a lack of memory as such, and of every other page table error as of an
/// invalid input.
pub proof fn law_paging_errors(e: PagingError)
    ensures
        e.spec_to_ax() == AxError::NoMemory <==> e == PagingError::NoMemory,
        e.spec_to_ax() == AxError::InvalidInput <==> e != PagingError::NoMemory,
{
}

} // verus!
