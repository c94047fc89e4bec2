//! The error type operations report: a numeric code and a short message.

use vstd::prelude::*;

verus! {

/// The code of a successful result.
pub const CODE_OK: u32 = 0;

/// The code of a validation rejection, distinct from a storage fault.
pub const CODE_VALIDATION: u32 = 1;

/// An error: a numeric code and a short message.
#[derive(Clone, Copy, Debug)]
pub struct Error {
    pub code: u32,
    pub msg: &'static str,
}

impl Error {
    /// The numeric code.
    pub fn code(&self) -> (c: u32)
        ensures
            c == self.code,
    {
        self.code
    }

    /// The message.
    pub fn msg(&self) -> (m: &'static str)
        ensures
            m@ == self.msg@,
    {
        self.msg
    }

    /// The rejection of a filtered removal whose values do not fit within
    /// the columns that remain from its first constrained column.
    pub fn arity_overflow() -> (e: Error)
        ensures
            e.code == CODE_VALIDATION,
    {
        Error { code: CODE_VALIDATION, msg: "field values exceed the remaining columns" }
    }
}

} // verus!
