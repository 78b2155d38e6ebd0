use vstd::prelude::*;

verus! {

/// An error type for utility-macros.
#[derive(Debug, Clone)]
pub enum Error {
    /// A required field is None when calling `Partial::type_()` or `HasRequired::required()`.
    MissingField(&'static str),
    /// A duplicate key is found when calling `Record::try_from_entries()`.
    DuplicateKey(&'static str),
    /// A key is missing when calling `Record::try_from_entries()`.
    MissingKey(&'static str),
    /// Invalid variant when converting a string or a value into a union or a pick.
    InvalidVariant(String),
    /// Invalid attribute item when parsing a container or field attribute.
    InvalidAttributeItem(String),
    /// Invalid case name when calling `CaseExt::from_str()`.
    InvalidCase(String),
    /// Invalid derive statement.
    InvalidDeriveStatement(String),
}

/// The kind of an error, without its payload.
#[derive(Debug, Clone, Copy, PartialEq, Eq, Structural)]
pub enum ErrorKind {
    MissingField,
    DuplicateKey,
    MissingKey,
    InvalidVariant,
    InvalidAttributeItem,
    InvalidCase,
    InvalidDeriveStatement,
}

/// An error seen as its kind and the characters of its payload.
pub type ErrorView = (ErrorKind, Seq<char>);

impl View for Error {
    type V = ErrorView;

    open spec fn view(&self) -> ErrorView {
        match self {
            Error::MissingField(s) => (ErrorKind::MissingField, s@),
            Error::DuplicateKey(s) => (ErrorKind::DuplicateKey, s@),
            Error::MissingKey(s) => (ErrorKind::MissingKey, s@),
            Error::InvalidVariant(s) => (ErrorKind::InvalidVariant, s@),
            Error::InvalidAttributeItem(s) => (ErrorKind::InvalidAttributeItem, s@),
            Error::InvalidCase(s) => (ErrorKind::InvalidCase, s@),
            Error::InvalidDeriveStatement(s) => (ErrorKind::InvalidDeriveStatement, s@),
        }
    }
}

/// A result seen through the views of its value and of its error.
pub open spec fn view_result<T: View>(r: core::result::Result<T, Error>) -> core::result::Result<T::V, ErrorView> {
    match r {
        Ok(v) => Ok(v@),
        Err(e) => Err(e@),
    }
}

/// A type alias for `std::result::Result<T, Error>`.
pub type Result<T> = core::result::Result<T, Error>;

/// The text shown for an error: its words, with the payload between backquotes.
pub open spec fn error_message(e: Error) -> Seq<char> {
    match e {
        Error::MissingField(s) => "Required field `"@ + s@ + "` is missing"@,
        Error::DuplicateKey(s) => "Duplicate key `"@ + s@ + "`"@,
        Error::MissingKey(s) => "Missing key `"@ + s@ + "`"@,
        Error::InvalidVariant(s) => "Invalid variant `"@ + s@ + "`"@,
        Error::InvalidAttributeItem(s) => "Invalid attribute item`"@ + s@ + "`"@,
        Error::InvalidCase(s) => "Invalid case `"@ + s@ + "`"@,
        Error::InvalidDeriveStatement(s) => "Invalid derive statement `"@ + s@ + "`"@,
    }
}

fn framed(prefix: &str, payload: &str, suffix: &str) -> (r: String)
    ensures
        r@ == prefix@ + payload@ + suffix@,
{
    let mut s = String::from_str(prefix);
    s.append(payload);
    s.append(suffix);
    s
}

impl Error {
    /// The human-readable message of this error.
    pub fn message(&self) -> (r: String)
        ensures
            r@ == error_message(*self),
    {
        match self {
            Error::MissingField(s) => framed("Required field `", s, "` is missing"),
            Error::DuplicateKey(s) => framed("Duplicate key `", s, "`"),
            Error::MissingKey(s) => framed("Missing key `", s, "`"),
            Error::InvalidVariant(s) => framed("Invalid variant `", s.as_str(), "`"),
            Error::InvalidAttributeItem(s) => framed("Invalid attribute item`", s.as_str(), "`"),
            Error::InvalidCase(s) => framed("Invalid case `", s.as_str(), "`"),
            Error::InvalidDeriveStatement(s) => framed("Invalid derive statement `", s.as_str(), "`"),
        }
    }
}

} // verus!
