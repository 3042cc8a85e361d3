//! The error kinds that decoding reports.
use vstd::prelude::*;

verus! {

/// An error of the decoder, named after the POSIX code that a host reports for it.
#[derive(Clone, Copy, Debug, PartialEq, Eq, Structural)]
pub enum Errno {
    /// An on-disk value breaks a structural rule of the format.
    EUCLEAN,
    /// A name lookup found nothing.
    ENOENT,
    /// No extended attribute matches a query.
    ENODATA,
    /// An allocation failed.
    ENOMEM,
    /// A caller's buffer is too small for the result.
    ERANGE,
    /// The medium failed to deliver bytes.
    EIO,
    /// The image uses a layout this decoder does not handle.
    EOPNOTSUPP,
}

/// The POSIX number of each error kind.
pub open spec fn posix_number(e: Errno) -> int {
    match e {
        Errno::EUCLEAN => 117,
        Errno::ENOENT => 2,
        Errno::ENODATA => 61,
        Errno::ENOMEM => 12,
        Errno::ERANGE => 34,
        Errno::EIO => 5,
        Errno::EOPNOTSUPP => 95,
    }
}

impl Errno {
    /// The negative POSIX code for this error, as a host returns it.
    pub fn code(&self) -> (r: i32)
        ensures
            r == -posix_number(*self),
    {
        match self {
            Errno::EUCLEAN => -117,
            Errno::ENOENT => -2,
            Errno::ENODATA => -61,
            Errno::ENOMEM => -12,
            Errno::ERANGE => -34,
            Errno::EIO => -5,
            Errno::EOPNOTSUPP => -95,
        }
    }
}

/// The result of a decoding step.
pub type PosixResult<T> = Result<T, Errno>;

} // verus!
