//! The errors of a scan.

use vstd::prelude::*;
use vstd::string::StringExecFns;
use crate::text::owned;

verus! {

/// Why a scan, or one step of it, failed. Each variant carries the text of
/// what went wrong.
#[derive(Debug, Clone)]
pub enum ScanError {
    /// A request could not be sent or answered.
    HttpError(String),
    /// A seed or a supplied URL does not parse.
    InvalidUrl(String),
    /// A document could not be parsed.
    ParseError(String),
    /// Reading or writing failed.
    IoError(String),
    /// A worker ended abnormally.
    JoinError(String),
    /// Anything else.
    Other(String),
}

impl ScanError {
    /// The text that introduces the errors of this kind.
    pub open spec fn prefix(self) -> Seq<char> {
        match self {
            ScanError::HttpError(_) => "HTTP request failed: "@,
            ScanError::InvalidUrl(_) => "Invalid URL: "@,
            ScanError::ParseError(_) => "Parse error: "@,
            ScanError::IoError(_) => "IO error: "@,
            ScanError::JoinError(_) => "Task join error: "@,
            ScanError::Other(_) => "Other error: "@,
        }
    }

    /// The text that the error carries.
    pub open spec fn detail(self) -> Seq<char> {
        match self {
            ScanError::HttpError(s) => s@,
            ScanError::InvalidUrl(s) => s@,
            ScanError::ParseError(s) => s@,
            ScanError::IoError(s) => s@,
            ScanError::JoinError(s) => s@,
            ScanError::Other(s) => s@,
        }
    }

    /// The error as one line of text: the kind, then the detail.
    pub fn message(&self) -> (text: String)
        ensures
            text@ == self.prefix() + self.detail(),
    {
        match self {
            ScanError::HttpError(s) => owned("HTTP request failed: ").concat(s.as_str()),
            ScanError::InvalidUrl(s) => owned("Invalid URL: ").concat(s.as_str()),
            ScanError::ParseError(s) => owned("Parse error: ").concat(s.as_str()),
            ScanError::IoError(s) => owned("IO error: ").concat(s.as_str()),
            ScanError::JoinError(s) => owned("Task join error: ").concat(s.as_str()),
            ScanError::Other(s) => owned("Other error: ").concat(s.as_str()),
        }
    }
}

} // verus!
