//! The error type shared by the CPF and plate validators.

use vstd::prelude::*;

verus! {

/// The closed set of failure classes a validation can report.
#[derive(Debug, Clone, Copy, PartialEq, Eq, Structural)]
pub enum AppErrorCode {
    InvalidCpfLength,
    InvalidCpf,
    InvalidPlate,
}

/// A validation failure: a code naming the class of failure and a
/// ready-to-display message derived from the offending input.
///
/// An error is created only at the point of failure and never mutated.
#[derive(Debug, Clone)]
pub struct ValidationError {
    code: AppErrorCode,
    message: String,
}

impl ValidationError {
    /// The failure class this error carries.
    pub closed spec fn spec_code(&self) -> AppErrorCode {
        self.code
    }

    /// The characters of the human-readable message.
    pub closed spec fn spec_message(&self) -> Seq<char> {
        self.message@
    }

    pub(crate) fn new(code: AppErrorCode, message: String) -> (e: Self)
        ensures
            e.spec_code() == code,
            e.spec_message() == message@,
    {
        ValidationError { code, message }
    }

    pub fn code(&self) -> (c: AppErrorCode)
        ensures
            c == self.spec_code(),
    {
        self.code
    }

    pub fn message(&self) -> (m: String)
        ensures
            m@ == self.spec_message(),
    {
        self.message.clone()
    }
}

} // verus!
