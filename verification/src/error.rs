//! Errors reported by this crate.

use vstd::prelude::*;
use vstd::string::StringExecFns;

verus! {

/// What went wrong, with a message for the operator.
#[derive(Debug)]
pub enum Error {
    /// A single parameter has a value that cannot be used.
    InvalidParameter(String),
    /// The settings as a whole cannot be used.
    Settings(String),
    /// The listener could not be brought up.
    Init(String),
}

impl Error {
    /// The text carried by the error, without the prefix of its kind.
    pub open spec fn detail(self) -> Seq<char> {
        match self {
            Error::InvalidParameter(m) => m@,
            Error::Settings(m) => m@,
            Error::Init(m) => m@,
        }
    }

    /// The prefix that names the kind of the error.
    pub open spec fn prefix(self) -> Seq<char> {
        match self {
            Error::InvalidParameter(_) => "invalid parameter: "@,
            Error::Settings(_) => "problem reading settings: "@,
            Error::Init(_) => "provider startup: "@,
        }
    }

    /// An `InvalidParameter` error with the detail `text`.
    pub open spec fn is_invalid_parameter(self, text: Seq<char>) -> bool {
        self matches Error::InvalidParameter(m) && m@ == text
    }

    /// A `Settings` error with the detail `text`.
    pub open spec fn is_settings(self, text: Seq<char>) -> bool {
        self matches Error::Settings(m) && m@ == text
    }

    /// An `Init` error with the detail `text`.
    pub open spec fn is_init(self, text: Seq<char>) -> bool {
        self matches Error::Init(m) && m@ == text
    }

    /// The full message: the prefix of the kind, then the detail.
    pub fn message(&self) -> (text: String)
        ensures
            text@ == self.prefix() + self.detail(),
    {
        match self {
            Error::InvalidParameter(m) => String::from_str("invalid parameter: ").concat(
                m.as_str(),
            ),
            Error::Settings(m) => String::from_str("problem reading settings: ").concat(
                m.as_str(),
            ),
            Error::Init(m) => String::from_str("provider startup: ").concat(m.as_str()),
        }
    }
}

} // verus!
