//! What can go wrong while plugins are installed, updated or removed.

use vstd::prelude::*;

verus! {

/// A failure of one operation on one plugin, or of the host coordination.
#[derive(Clone, Debug, PartialEq, Eq)]
pub enum Error {
    /// The name is already in the registry.
    AlreadyExists,
    /// The release API answered with a status other than success.
    HttpError(String),
    /// A response body or an archive could not be decoded.
    DecodeError(String),
    /// The release offers no asset at all.
    NoMatchingAsset,
    /// The answer to the manual prompt names no asset.
    InvalidSelection,
    /// The match pattern is no regular expression; holds the pattern.
    InvalidPattern(String),
    /// The archive holds no library binary.
    MalformedArchive,
    /// A file operation still failed when the retry budget was spent.
    LockedFile(String),
    /// The host application could not be stopped or started.
    ProcessError(String),
    /// A transfer or a file operation outside the retry executor failed.
    Transfer(String),
    /// The driver reported what the pending action cannot come to.
    Unexpected,
}

/// The mathematical value of an [`Error`].
pub enum ErrorView {
    AlreadyExists,
    HttpError(Seq<char>),
    DecodeError(Seq<char>),
    NoMatchingAsset,
    InvalidSelection,
    InvalidPattern(Seq<char>),
    MalformedArchive,
    LockedFile(Seq<char>),
    ProcessError(Seq<char>),
    Transfer(Seq<char>),
    Unexpected,
}

impl View for Error {
    type V = ErrorView;

    open spec fn view(&self) -> ErrorView {
        match self {
            Error::AlreadyExists => ErrorView::AlreadyExists,
            Error::HttpError(m) => ErrorView::HttpError(m@),
            Error::DecodeError(m) => ErrorView::DecodeError(m@),
            Error::NoMatchingAsset => ErrorView::NoMatchingAsset,
            Error::InvalidSelection => ErrorView::InvalidSelection,
            Error::InvalidPattern(p) => ErrorView::InvalidPattern(p@),
            Error::MalformedArchive => ErrorView::MalformedArchive,
            Error::LockedFile(m) => ErrorView::LockedFile(m@),
            Error::ProcessError(m) => ErrorView::ProcessError(m@),
            Error::Transfer(m) => ErrorView::Transfer(m@),
            Error::Unexpected => ErrorView::Unexpected,
        }
    }
}

/// The text shown for an error.
pub open spec fn message_of(e: ErrorView) -> Seq<char> {
    match e {
        ErrorView::AlreadyExists => "Plugin already exists"@,
        ErrorView::HttpError(m) => m,
        ErrorView::DecodeError(m) => m,
        ErrorView::NoMatchingAsset => "No asset to select"@,
        ErrorView::InvalidSelection => "Invalid index"@,
        ErrorView::InvalidPattern(p) => "Invalid regex pattern: '"@ + p + "'"@,
        ErrorView::MalformedArchive => "No .dll file found in zip"@,
        ErrorView::LockedFile(m) => m,
        ErrorView::ProcessError(m) => m,
        ErrorView::Transfer(m) => m,
        ErrorView::Unexpected => "Unexpected event"@,
    }
}

impl Error {
    /// The text shown for this error.
    pub fn message(&self) -> (r: String)
        ensures
            r@ == message_of(self@),
    {
        match self {
            Error::AlreadyExists => "Plugin already exists".to_owned(),
            Error::HttpError(m) => m.clone(),
            Error::DecodeError(m) => m.clone(),
            Error::NoMatchingAsset => "No asset to select".to_owned(),
            Error::InvalidSelection => "Invalid index".to_owned(),
            Error::InvalidPattern(p) => crate::text::concat3("Invalid regex pattern: '", p.as_str(), "'"),
            Error::MalformedArchive => "No .dll file found in zip".to_owned(),
            Error::LockedFile(m) => m.clone(),
            Error::ProcessError(m) => m.clone(),
            Error::Transfer(m) => m.clone(),
            Error::Unexpected => "Unexpected event".to_owned(),
        }
    }

    /// A copy of this error.
    pub fn duplicate(&self) -> (r: Error)
        ensures
            r@ == self@,
    {
        match self {
            Error::AlreadyExists => Error::AlreadyExists,
            Error::HttpError(m) => Error::HttpError(m.clone()),
            Error::DecodeError(m) => Error::DecodeError(m.clone()),
            Error::NoMatchingAsset => Error::NoMatchingAsset,
            Error::InvalidSelection => Error::InvalidSelection,
            Error::InvalidPattern(p) => Error::InvalidPattern(p.clone()),
            Error::MalformedArchive => Error::MalformedArchive,
            Error::LockedFile(m) => Error::LockedFile(m.clone()),
            Error::ProcessError(m) => Error::ProcessError(m.clone()),
            Error::Transfer(m) => Error::Transfer(m.clone()),
            Error::Unexpected => Error::Unexpected,
        }
    }
}

} // verus!
