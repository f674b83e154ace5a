//! The error type shared by every fallible operation of the crate.

use vstd::prelude::*;

verus! {

/// Everything that can go wrong while resolving or rewriting a stack
/// history document.
#[derive(Debug, Clone, PartialEq, Eq)]
pub enum SwInstallError {
    /// The underlying XML stream was malformed, or an attribute list could
    /// not be parsed.  Carries the reader's own message.
    QuckXmlError(String),
    /// The root element declares no schema and no default was configured.
    NoDefaultSchema,
    /// A schema identifier was given for which no resolver is registered.
    NoSuchSchema(String),
    /// The scan finished without a qualifying record, or the root container
    /// was never found.
    NoCurrentFound,
    /// The document lacks its subject-path declaration.
    NoPathInXml,
    /// A path could not be split into a parent directory and a base name.
    NoParentFromPath,
    /// A path has no extractable base name.
    NoFileNameFromPath,
    /// A platform path could not be read back as text.
    ConvertOsStrFail,
    /// A required attribute is absent from a record element.
    MissingEltAttribute,
    /// A byte sequence was not valid text.
    Utf8Error(String),
    /// A timestamp-shaped field failed the fixed-pattern parse.  Carries the
    /// offending field.
    ChronoParseError(String),
    /// A generic runtime failure, with its message.
    RuntimeError(String),
    /// A date argument was not in the expected notation.
    InvalidDate(String),
    /// A time argument was not in the expected notation.
    InvalidTime(String),
    /// An integer field could not be parsed.
    ParseIntError(String),
    /// A boolean token could not be parsed.
    ParseBoolError(String),
    /// An action string was not one of the known action names.
    InvalidAction(String),
    /// The append/update operation was invoked with an action it does not
    /// implement.
    UnsupportedAction(String),
}

/// The mathematical shadow of [`SwInstallError`]: the same variants with
/// every message as a character sequence.
pub ghost enum ErrView {
    QuckXmlError(Seq<char>),
    NoDefaultSchema,
    NoSuchSchema(Seq<char>),
    NoCurrentFound,
    NoPathInXml,
    NoParentFromPath,
    NoFileNameFromPath,
    ConvertOsStrFail,
    MissingEltAttribute,
    Utf8Error(Seq<char>),
    ChronoParseError(Seq<char>),
    RuntimeError(Seq<char>),
    InvalidDate(Seq<char>),
    InvalidTime(Seq<char>),
    ParseIntError(Seq<char>),
    ParseBoolError(Seq<char>),
    InvalidAction(Seq<char>),
    UnsupportedAction(Seq<char>),
}

impl View for SwInstallError {
    type V = ErrView;

    open spec fn view(&self) -> ErrView {
        match self {
            SwInstallError::QuckXmlError(m) => ErrView::QuckXmlError(m@),
            SwInstallError::NoDefaultSchema => ErrView::NoDefaultSchema,
            SwInstallError::NoSuchSchema(m) => ErrView::NoSuchSchema(m@),
            SwInstallError::NoCurrentFound => ErrView::NoCurrentFound,
            SwInstallError::NoPathInXml => ErrView::NoPathInXml,
            SwInstallError::NoParentFromPath => ErrView::NoParentFromPath,
            SwInstallError::NoFileNameFromPath => ErrView::NoFileNameFromPath,
            SwInstallError::ConvertOsStrFail => ErrView::ConvertOsStrFail,
            SwInstallError::MissingEltAttribute => ErrView::MissingEltAttribute,
            SwInstallError::Utf8Error(m) => ErrView::Utf8Error(m@),
            SwInstallError::ChronoParseError(m) => ErrView::ChronoParseError(m@),
            SwInstallError::RuntimeError(m) => ErrView::RuntimeError(m@),
            SwInstallError::InvalidDate(m) => ErrView::InvalidDate(m@),
            SwInstallError::InvalidTime(m) => ErrView::InvalidTime(m@),
            SwInstallError::ParseIntError(m) => ErrView::ParseIntError(m@),
            SwInstallError::ParseBoolError(m) => ErrView::ParseBoolError(m@),
            SwInstallError::InvalidAction(m) => ErrView::InvalidAction(m@),
            SwInstallError::UnsupportedAction(m) => ErrView::UnsupportedAction(m@),
        }
    }
}

} // verus!
