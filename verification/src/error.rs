//! The errors of the kernel, and the status that each is reported under.
use vstd::prelude::*;
use vstd::string::*;

verus! {

/// What went wrong, with a message that names the thing concerned.
#[derive(Debug, PartialEq, Eq)]
pub enum Error {
    /// A name was looked for that nothing has.
    NotFound(String),
    /// A name was to be given that something has already.
    AlreadyExists(String),
    /// A request or an argument is not of the form asked for.
    InvalidArgument(String),
    /// Stored bytes do not hold what they should.
    Corrupted(String),
}

/// An error as a mathematical value.
pub enum ErrorModel {
    NotFound(Seq<char>),
    AlreadyExists(Seq<char>),
    InvalidArgument(Seq<char>),
    Corrupted(Seq<char>),
}

/// The status category under which an error is reported to a remote caller.
#[derive(Clone, Copy, Debug, PartialEq, Eq, Structural)]
pub enum Code {
    NotFound,
    AlreadyExists,
    InvalidArgument,
    DataLoss,
}

impl View for Error {
    type V = ErrorModel;

    open spec fn view(&self) -> ErrorModel {
        match self {
            Error::NotFound(m) => ErrorModel::NotFound(m@),
            Error::AlreadyExists(m) => ErrorModel::AlreadyExists(m@),
            Error::InvalidArgument(m) => ErrorModel::InvalidArgument(m@),
            Error::Corrupted(m) => ErrorModel::Corrupted(m@),
        }
    }
}

impl ErrorModel {
    /// The status category of each kind of error: the one of the same name,
    /// and data loss for corrupted bytes.
    pub open spec fn code(self) -> Code {
        match self {
            ErrorModel::NotFound(_) => Code::NotFound,
            ErrorModel::AlreadyExists(_) => Code::AlreadyExists,
            ErrorModel::InvalidArgument(_) => Code::InvalidArgument,
            ErrorModel::Corrupted(_) => Code::DataLoss,
        }
    }

    /// The message that the error carries.
    pub open spec fn message(self) -> Seq<char> {
        match self {
            ErrorModel::NotFound(m) => m,
            ErrorModel::AlreadyExists(m) => m,
            ErrorModel::InvalidArgument(m) => m,
            ErrorModel::Corrupted(m) => m,
        }
    }
}

/// The outcome of an operation as a mathematical value.
pub open spec fn outcome<R: View>(res: Result<R, Error>) -> Result<R::V, ErrorModel> {
    match res {
        Ok(r) => Ok(r@),
        Err(e) => Err(e@),
    }
}

/// The text `kind` followed by `name`.
pub fn labelled(kind: &str, name: &str) -> (text: String)
    ensures
        text@ == kind@ + name@,
{
    String::from_str(kind).concat(name)
}

impl Error {
    /// The error that nothing of this kind has this name.
    pub fn not_found(kind: &str, name: &str) -> (e: Error)
        ensures
            e@ == ErrorModel::NotFound(kind@ + name@),
    {
        Error::NotFound(labelled(kind, name))
    }

    /// The error that something of this kind has this name already.
    pub fn already_exists(kind: &str, name: &str) -> (e: Error)
        ensures
            e@ == ErrorModel::AlreadyExists(kind@ + name@),
    {
        Error::AlreadyExists(labelled(kind, name))
    }

    /// The error that a request or an argument is not as asked for.
    pub fn invalid_argument(message: &str) -> (e: Error)
        ensures
            e@ == ErrorModel::InvalidArgument(message@),
    {
        Error::InvalidArgument(String::from_str(message))
    }

    /// The error that stored bytes are not what they should be.
    pub fn corrupted(message: &str) -> (e: Error)
        ensures
            e@ == ErrorModel::Corrupted(message@),
    {
        Error::Corrupted(String::from_str(message))
    }

    /// The status category under which this error is reported.
    pub fn code(&self) -> (code: Code)
        ensures
            code == self@.code(),
    {
        match self {
            Error::NotFound(_) => Code::NotFound,
            Error::AlreadyExists(_) => Code::AlreadyExists,
            Error::InvalidArgument(_) => Code::InvalidArgument,
            Error::Corrupted(_) => Code::DataLoss,
        }
    }

    /// The message of this error.
    pub fn message(&self) -> (text: &str)
        ensures
            text@ == self@.message(),
    {
        match self {
            Error::NotFound(m) => m.as_str(),
            Error::AlreadyExists(m) => m.as_str(),
            Error::InvalidArgument(m) => m.as_str(),
            Error::Corrupted(m) => m.as_str(),
        }
    }
}

} // verus!
