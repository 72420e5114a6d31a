//! The errors that compiling a pattern or checking an address can end in.

use vstd::prelude::*;
use vstd::string::StringExecFns;

verus! {

/// Why a pattern could not be compiled, or an address not be used.
#[derive(Debug, Clone, PartialEq, Eq)]
pub enum OscError {
    /// The pattern does not follow the grammar of address patterns.
    BadAddressPattern(String),
    /// The address is not a well-formed address.
    BadAddress(String),
    /// A segment's character class could not be turned into a test: the
    /// engine refused the segment. Holds the engine's reason.
    RegexError(String),
}

/// An error with its message as a sequence of characters.
pub enum OscErrorView {
    BadAddressPattern(Seq<char>),
    BadAddress(Seq<char>),
    RegexError(Seq<char>),
}

impl View for OscError {
    type V = OscErrorView;

    open spec fn view(&self) -> OscErrorView {
        match self {
            OscError::BadAddressPattern(msg) => OscErrorView::BadAddressPattern(msg@),
            OscError::BadAddress(msg) => OscErrorView::BadAddress(msg@),
            OscError::RegexError(msg) => OscErrorView::RegexError(msg@),
        }
    }
}

impl OscErrorView {
    /// The line that describes the error: what kind it is, then its message.
    pub open spec fn text(self) -> Seq<char> {
        match self {
            OscErrorView::BadAddressPattern(msg) => "bad OSC address pattern: "@ + msg,
            OscErrorView::BadAddress(msg) => "bad OSC address: "@ + msg,
            OscErrorView::RegexError(msg) => "OSC address pattern regex error: "@ + msg,
        }
    }
}

/// The error for a pattern that does not follow the grammar.
pub open spec fn bad_pattern() -> OscErrorView {
    OscErrorView::BadAddressPattern("bad address pattern"@)
}

/// The error for an address that is not well formed.
pub open spec fn bad_address() -> OscErrorView {
    OscErrorView::BadAddress("bad address"@)
}

impl OscError {
    /// The line that describes the error.
    pub fn to_string(&self) -> (line: String)
        ensures
            line@ == self@.text(),
    {
        match self {
            OscError::BadAddressPattern(msg) => String::from_str("bad OSC address pattern: ").concat(
                msg.as_str(),
            ),
            OscError::BadAddress(msg) => String::from_str("bad OSC address: ").concat(
                msg.as_str(),
            ),
            OscError::RegexError(msg) => String::from_str(
                "OSC address pattern regex error: ",
            ).concat(msg.as_str()),
        }
    }
}

} // verus!
