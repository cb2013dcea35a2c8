//! Error taxonomy shared by resolution and installation.

use vstd::prelude::*;

verus! {

/// The closed set of failures the library reports.
///
/// Resolution failures (`NotFound`), platform mismatches
/// (`UnsupportedPlatform`) and pipeline failures (`NetworkError`, `IOError`,
/// `ExecutableNotFound`) are distinguished so that callers can decide what
/// aborts a batch and what is reported per package. `InputError` covers
/// malformed user input, such as an asset URL without a final path segment.
#[derive(Debug, Clone, Copy, PartialEq, Eq, Structural)]
pub enum WenError {
    InputError,
    NotFound,
    UnsupportedPlatform,
    NetworkError,
    IOError,
    ExecutableNotFound,
}

impl WenError {
    /// A short fixed description of the error, for display by callers.
    pub fn describe(&self) -> (r: &'static str)
        ensures
            *self == WenError::InputError ==> r@ == "invalid input"@,
            *self == WenError::NotFound ==> r@ == "no packages found"@,
            *self == WenError::UnsupportedPlatform ==> r@ == "unsupported platform"@,
            *self == WenError::NetworkError ==> r@ == "network error"@,
            *self == WenError::IOError ==> r@ == "i/o error"@,
            *self == WenError::ExecutableNotFound ==> r@ == "executable not found"@,
    {
        match self {
            WenError::InputError => "invalid input",
            WenError::NotFound => "no packages found",
            WenError::UnsupportedPlatform => "unsupported platform",
            WenError::NetworkError => "network error",
            WenError::IOError => "i/o error",
            WenError::ExecutableNotFound => "executable not found",
        }
    }
}

} // verus!
