//! What can go wrong while a font is installed.

use vstd::prelude::*;
use vstd::string::*;
use crate::text::decimal;
use crate::text::decimal_digits;

verus! {

/// A failed installation step, as far as the library decides it.
#[derive(Clone, Debug, PartialEq, Eq)]
pub enum InstallError {
    /// The server answered with a status that is not a success.
    Status(u16),
    /// The system knows no home directory for the user.
    NoHomeDirectory,
    /// The system knows no data directory for the user.
    NoDataDirectory,
    /// The platform is none of macOS, Linux and Windows.
    UnsupportedOs,
    /// The archive could not be opened or one of its entries not read; the
    /// text is that of the underlying error.
    Archive(String),
}

/// The message that goes with an error.
pub open spec fn message_text(error: InstallError) -> Seq<char> {
    match error {
        InstallError::Status(status) => "Failed to download font zip: "@ + decimal_digits(
            status as nat,
        ),
        InstallError::NoHomeDirectory => "Cannot find home directory"@,
        InstallError::NoDataDirectory => "Cannot find data directory"@,
        InstallError::UnsupportedOs => "Unsupported OS"@,
        InstallError::Archive(text) => text@,
    }
}

impl InstallError {
    /// The message to show to the user.
    pub fn message(&self) -> (text: String)
        ensures
            text@ == message_text(*self),
    {
        match self {
            InstallError::Status(status) => {
                let number: usize = *status as usize;
                String::from_str("Failed to download font zip: ").concat(
                    decimal(number).as_str(),
                )
            },
            InstallError::NoHomeDirectory => String::from_str("Cannot find home directory"),
            InstallError::NoDataDirectory => String::from_str("Cannot find data directory"),
            InstallError::UnsupportedOs => String::from_str("Unsupported OS"),
            InstallError::Archive(text) => text.clone(),
        }
    }
}

/// A status from 200 to 299 is a success.
pub open spec fn is_success(status: u16) -> bool {
    200 <= status < 300
}

/// Accepts a response status, or says why the download failed.
pub fn check_status(status: u16) -> (r: Result<(), InstallError>)
    ensures
        is_success(status) ==> r is Ok,
        !is_success(status) ==> r == Err::<(), InstallError>(InstallError::Status(status)),
{
    if 200 <= status && status < 300 {
        Ok(())
    } else {
        Err(InstallError::Status(status))
    }
}

} // verus!
