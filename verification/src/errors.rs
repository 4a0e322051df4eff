//! The error values of the surrounding launcher tool.
//!
//! Each error is a unit struct with a fixed message. The message is exposed
//! as a method returning the text itself, so callers can print it.

use vstd::prelude::*;

verus! {

/// The selected path does not point to a regular file.
#[derive(Debug, Clone)]
pub struct NotAFileError;

impl NotAFileError {
    /// The message shown for this error.
    pub fn message(&self) -> (m: &'static str)
        ensures
            m@ == "Not a file"@,
    {
        "Not a file"
    }
}

/// The selected file has no executable permission bit set.
#[derive(Debug, Clone)]
pub struct NotExecutableError;

impl NotExecutableError {
    /// The message shown for this error.
    pub fn message(&self) -> (m: &'static str)
        ensures
            m@ == "Not an executable file, run \"chmod +x FILE\" first?"@,
    {
        "Not an executable file, run \"chmod +x FILE\" first?"
    }
}

/// The user's home directory could not be located.
#[derive(Debug, Clone)]
pub struct NoHomeDirError;

impl NoHomeDirError {
    /// The message shown for this error.
    pub fn message(&self) -> (m: &'static str)
        ensures
            m@ == "Could not find the user's home directory"@,
    {
        "Could not find the user's home directory"
    }
}

/// The target launcher entry already exists and overwriting was not asked.
#[derive(Debug, Clone)]
pub struct CustomAlreadyExistsError;

impl CustomAlreadyExistsError {
    /// The message shown for this error.
    pub fn message(&self) -> (m: &'static str)
        ensures
            m@ == "The target application file already exists. You can use \"-o\" to overwrite it."@,
    {
        "The target application file already exists. You can use \"-o\" to overwrite it."
    }
}

/// The path to the binary file is not valid Unicode.
#[derive(Debug, Clone)]
pub struct NonUnicodePathError;

impl NonUnicodePathError {
    /// The message shown for this error.
    pub fn message(&self) -> (m: &'static str)
        ensures
            m@
                == "The path to the binary file is not valid Unicode, will not attempt to write it into the application file"@,
    {
        "The path to the binary file is not valid Unicode, will not attempt to write it into the application file"
    }
}

/// The name of the binary file is not valid Unicode.
#[derive(Debug, Clone)]
pub struct NonUnicodeNameError;

impl NonUnicodeNameError {
    /// The message shown for this error.
    pub fn message(&self) -> (m: &'static str)
        ensures
            m@
                == "The name of the binary file is not valid Unicode, will not attempt to write it into the application file"@,
    {
        "The name of the binary file is not valid Unicode, will not attempt to write it into the application file"
    }
}

} // verus!
