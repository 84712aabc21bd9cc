//! The ways in which a download can fail.

use crate::hex_text::HexError;
use vstd::prelude::*;
use vstd::string::StringExecFns;

verus! {

/// Why a download ended without success.
#[derive(Debug)]
pub enum DownloadError {
    /// The destination file could not be created or written; the text is the
    /// system's description.
    IoError(String),
    /// The request or the transfer of the body failed; the text is the
    /// transport's description.
    RequestError(String),
    /// The expected hash is not hexadecimal text.
    InvalidHash(HexError),
    /// The file's hash differs from the expected one. Both are given as
    /// hexadecimal text, the expected one first.
    HashMismatch(String, String),
}

/// What a `DownloadError` says.
pub enum DownloadErrorView {
    IoError(Seq<char>),
    RequestError(Seq<char>),
    InvalidHash(HexError),
    HashMismatch(Seq<char>, Seq<char>),
}

impl View for DownloadError {
    type V = DownloadErrorView;

    open spec fn view(&self) -> DownloadErrorView {
        match self {
            DownloadError::IoError(text) => DownloadErrorView::IoError(text@),
            DownloadError::RequestError(text) => DownloadErrorView::RequestError(text@),
            DownloadError::InvalidHash(e) => DownloadErrorView::InvalidHash(*e),
            DownloadError::HashMismatch(expected, actual) => DownloadErrorView::HashMismatch(
                expected@,
                actual@,
            ),
        }
    }
}

/// How the `hex` crate words the report of a byte that is no digit.
pub uninterp spec fn invalid_character_text(c: char, index: usize) -> Seq<char>;

/// The `hex` crate's description of a decoding error.
pub open spec fn hex_error_text(e: HexError) -> Seq<char> {
    match e {
        HexError::InvalidHexCharacter { c, index } => invalid_character_text(c, index),
        HexError::OddLength => "Odd number of digits"@,
        HexError::InvalidStringLength => "Invalid string length"@,
    }
}

/// Formats a `hex::FromHexError` with its `Display` impl. The two fixed texts
/// are stated; the text for a byte that is no digit, which escapes the
/// character, is only named.
#[verifier::external_body]
pub(crate) fn describe_hex_error(e: HexError) -> (text: String)
    ensures
        match e {
            HexError::InvalidHexCharacter { c, index } => text@ == invalid_character_text(c, index),
            HexError::OddLength => text@ == "Odd number of digits"@,
            HexError::InvalidStringLength => text@ == "Invalid string length"@,
        },
{
    let outside = match e {
        HexError::InvalidHexCharacter { c, index } => hex::FromHexError::InvalidHexCharacter {
            c,
            index,
        },
        HexError::OddLength => hex::FromHexError::OddLength,
        HexError::InvalidStringLength => hex::FromHexError::InvalidStringLength,
    };
    format!("{}", outside)
}

impl DownloadErrorView {
    /// The text that describes the error.
    pub open spec fn message(self) -> Seq<char> {
        match self {
            DownloadErrorView::IoError(text) => "IO error: "@ + text,
            DownloadErrorView::RequestError(text) => "Request error: "@ + text,
            DownloadErrorView::InvalidHash(e) => "Invalid hash: "@ + hex_error_text(e),
            DownloadErrorView::HashMismatch(expected, actual) => "Hash mismatch: expected "@
                + expected + ", got "@ + actual,
        }
    }
}

impl DownloadError {
    /// The text that describes the error.
    pub fn message(&self) -> (text: String)
        ensures
            text@ == self@.message(),
    {
        match self {
            DownloadError::IoError(cause) => {
                let mut text = String::from_str("IO error: ");
                text.append(cause.as_str());
                text
            },
            DownloadError::RequestError(cause) => {
                let mut text = String::from_str("Request error: ");
                text.append(cause.as_str());
                text
            },
            DownloadError::InvalidHash(e) => {
                let mut text = String::from_str("Invalid hash: ");
                let cause = describe_hex_error(*e);
                text.append(cause.as_str());
                text
            },
            DownloadError::HashMismatch(expected, actual) => {
                let mut text = String::from_str("Hash mismatch: expected ");
                text.append(expected.as_str());
                text.append(", got ");
                text.append(actual.as_str());
                text
            },
        }
    }
}

/// Why an extraction ended without success.
#[derive(Debug)]
pub enum ExtractError {
    /// The archive could not be opened, a directory could not be created or an
    /// entry could not be written; the text is the system's description.
    IoError(String),
    /// The archive is corrupt or an entry of it cannot be read; the text is the
    /// decoder's description.
    ArchiveError(String),
}

/// What an `ExtractError` says.
pub enum ExtractErrorView {
    IoError(Seq<char>),
    ArchiveError(Seq<char>),
}

impl View for ExtractError {
    type V = ExtractErrorView;

    open spec fn view(&self) -> ExtractErrorView {
        match self {
            ExtractError::IoError(text) => ExtractErrorView::IoError(text@),
            ExtractError::ArchiveError(text) => ExtractErrorView::ArchiveError(text@),
        }
    }
}

impl ExtractErrorView {
    /// The text that describes the error: the description it was made with.
    pub open spec fn message(self) -> Seq<char> {
        match self {
            ExtractErrorView::IoError(text) => text,
            ExtractErrorView::ArchiveError(text) => text,
        }
    }
}

impl ExtractError {
    /// The text that describes the error.
    pub fn message(&self) -> (text: String)
        ensures
            text@ == self@.message(),
    {
        match self {
            ExtractError::IoError(cause) => cause.clone(),
            ExtractError::ArchiveError(cause) => cause.clone(),
        }
    }
}

/// Why nothing to download was found among the releases of a repository.
#[derive(Clone, Copy, Debug, PartialEq, Eq, Structural)]
pub enum ResolveError {
    /// The repository has no release.
    NoRelease,
    /// No asset of the latest release was accepted.
    NoAsset,
}

impl ResolveError {
    /// The text that describes the step that failed.
    pub open spec fn spec_message(self) -> Seq<char> {
        match self {
            ResolveError::NoRelease => "Finding latest version"@,
            ResolveError::NoAsset => "Finding zip asset"@,
        }
    }

    /// The text that describes the step that failed.
    pub fn message(&self) -> (text: String)
        ensures
            text@ == self.spec_message(),
    {
        match self {
            ResolveError::NoRelease => String::from_str("Finding latest version"),
            ResolveError::NoAsset => String::from_str("Finding zip asset"),
        }
    }
}

} // verus!
