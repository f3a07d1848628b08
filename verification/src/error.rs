//! Why an item could not be unwrapped.

use vstd::prelude::*;
use vstd::string::StringExecFns;
use crate::decimal::{decimal_text, numeral};
use crate::format::WrappedFormat;

verus! {

/// What is wrong with a text that is not Base64.
#[derive(Clone, Copy, Debug, PartialEq, Eq, Structural)]
pub enum Base64Flaw {
    /// The byte `byte` at `offset` is no Base64 symbol.
    InvalidByte { offset: usize, byte: u8 },
    /// No Base64 text has this length.
    InvalidLength,
    /// The last symbol, `byte` at `offset`, carries bits that would be lost.
    InvalidLastSymbol { offset: usize, byte: u8 },
}

impl Base64Flaw {
    /// The flaw in words.
    pub open spec fn spec_describe(self) -> Seq<char> {
        match self {
            Base64Flaw::InvalidByte { offset, byte } => "invalid byte "@ + decimal_text(
                byte as nat,
            ) + " at offset "@ + decimal_text(offset as nat),
            Base64Flaw::InvalidLength => "invalid length"@,
            Base64Flaw::InvalidLastSymbol { offset, byte } => "invalid last symbol "@
                + decimal_text(byte as nat) + " at offset "@ + decimal_text(offset as nat),
        }
    }

    /// The flaw in words.
    pub fn describe(self) -> (text: String)
        ensures
            text@ == self.spec_describe(),
    {
        match self {
            Base64Flaw::InvalidByte { offset, byte } => {
                let mut text = String::from_str("invalid byte ");
                text.append(numeral(byte as usize).as_str());
                text.append(" at offset ");
                text.append(numeral(offset).as_str());
                text
            },
            Base64Flaw::InvalidLength => String::from_str("invalid length"),
            Base64Flaw::InvalidLastSymbol { offset, byte } => {
                let mut text = String::from_str("invalid last symbol ");
                text.append(numeral(byte as usize).as_str());
                text.append(" at offset ");
                text.append(numeral(offset).as_str());
                text
            },
        }
    }
}

/// The failure of one item. It never ends the run: the items after it are still processed.
#[derive(Clone, Debug, PartialEq, Eq)]
pub enum UnwrapError {
    /// The content matches no known wrapping format.
    Unsupported,
    /// The input could not be opened or read.
    SourceIo { reason: String },
    /// The destination directory could not be created, for a reason other than a name that is
    /// taken.
    DestinationAllocation { reason: String },
    /// The codec for `format` found the data malformed, or could not write what it decoded.
    Decode { format: WrappedFormat, reason: String },
    /// The outer layer of `format` was decoded, but unpacking the tar archive found inside it
    /// failed.
    NestedUnwrap { format: WrappedFormat, reason: String },
    /// The text is not valid Base64.
    Base64Decode { flaw: Base64Flaw },
}

/// An `UnwrapError` with its messages as sequences of characters.
pub enum UnwrapErrorView {
    Unsupported,
    SourceIo { reason: Seq<char> },
    DestinationAllocation { reason: Seq<char> },
    Decode { format: WrappedFormat, reason: Seq<char> },
    NestedUnwrap { format: WrappedFormat, reason: Seq<char> },
    Base64Decode { flaw: Base64Flaw },
}

impl View for UnwrapError {
    type V = UnwrapErrorView;

    open spec fn view(&self) -> UnwrapErrorView {
        match *self {
            UnwrapError::Unsupported => UnwrapErrorView::Unsupported,
            UnwrapError::SourceIo { reason } => UnwrapErrorView::SourceIo { reason: reason@ },
            UnwrapError::DestinationAllocation { reason } => UnwrapErrorView::DestinationAllocation {
                reason: reason@,
            },
            UnwrapError::Decode { format, reason } => UnwrapErrorView::Decode {
                format,
                reason: reason@,
            },
            UnwrapError::NestedUnwrap { format, reason } => UnwrapErrorView::NestedUnwrap {
                format,
                reason: reason@,
            },
            UnwrapError::Base64Decode { flaw } => UnwrapErrorView::Base64Decode { flaw },
        }
    }
}

impl UnwrapErrorView {
    /// The failure in words: what could not be done, with the format where one is to blame,
    /// and the reason that was given.
    pub open spec fn describe(self) -> Seq<char> {
        match self {
            UnwrapErrorView::Unsupported => "the content is of no supported format"@,
            UnwrapErrorView::SourceIo { reason } => "cannot read the input: "@ + reason,
            UnwrapErrorView::DestinationAllocation { reason } => "cannot create the destination: "@
                + reason,
            UnwrapErrorView::Decode { format, reason } => "cannot unwrap "@ + format.spec_name()
                + ": "@ + reason,
            UnwrapErrorView::NestedUnwrap { format, reason } => "unwrapped "@ + format.spec_name()
                + ", but cannot unpack the tar archive inside: "@ + reason,
            UnwrapErrorView::Base64Decode { flaw } => "cannot decode base64: "@
                + flaw.spec_describe(),
        }
    }
}

impl UnwrapError {
    /// The failure in words.
    pub fn describe(&self) -> (text: String)
        ensures
            text@ == self@.describe(),
    {
        match self {
            UnwrapError::Unsupported => String::from_str("the content is of no supported format"),
            UnwrapError::SourceIo { reason } => {
                let mut text = String::from_str("cannot read the input: ");
                text.append(reason.as_str());
                text
            },
            UnwrapError::DestinationAllocation { reason } => {
                let mut text = String::from_str("cannot create the destination: ");
                text.append(reason.as_str());
                text
            },
            UnwrapError::Decode { format, reason } => {
                let mut text = String::from_str("cannot unwrap ");
                text.append(format.name());
                text.append(": ");
                text.append(reason.as_str());
                text
            },
            UnwrapError::NestedUnwrap { format, reason } => {
                let mut text = String::from_str("unwrapped ");
                text.append(format.name());
                text.append(", but cannot unpack the tar archive inside: ");
                text.append(reason.as_str());
                text
            },
            UnwrapError::Base64Decode { flaw } => {
                let mut text = String::from_str("cannot decode base64: ");
                text.append(flaw.describe().as_str());
                text
            },
        }
    }
}

} // verus!
