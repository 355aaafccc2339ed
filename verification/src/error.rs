use vstd::prelude::*;

verus! {

/// Why an operation of the harness failed.
#[derive(Debug, PartialEq, Eq)]
pub enum SeashellError {
    /// No layer of the store holds the account, and no remote source is configured.
    AccountNotFound,
    /// A remote fetch was asked for, and no remote source is configured.
    RemoteNotConfigured,
    /// The remote source failed; the message is the transport's own.
    RemoteFetchFailed(String),
    /// The identifier names no system variable.
    UnknownSystemVariable,
    /// The bytes do not decode as the system variable they were written to.
    InvalidSystemVariableEncoding,
    /// The loader did not accept the program image.
    ProgramLoadFailed,
    /// More account references than an instruction can carry.
    TooManyAccounts,
    /// A balance would exceed the greatest number of lamports.
    ArithmeticOverflow,
    /// An input or output operation failed; the message is the system's own.
    IoError(String),
    /// Any other failure, described in words.
    Custom(String),
}

} // verus!
