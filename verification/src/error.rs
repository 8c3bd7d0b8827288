//! Error codes returned by the library.

use vstd::prelude::*;

verus! {

/// The errors that the operations of this library report, named after the kernel's error codes.
#[derive(Debug, Clone, Copy, PartialEq, Eq, Structural)]
pub enum Error {
    /// Out of memory.
    ENOMEM,
    /// No space left.
    ENOSPC,
    /// Value too large for the defined data type.
    EOVERFLOW,
    /// Invalid argument.
    EINVAL,
    /// Device or resource busy.
    EBUSY,
}

} // verus!
