use vstd::prelude::*;

verus! {

/// The closed taxonomy of failure kinds shared by every component of this
/// library. Every external failure (HTTP status, transport error, decode
/// error) is mapped into one of these kinds at the boundary where it is
/// first observed; no component introduces an error outside this set.
#[derive(Debug, PartialEq, Eq)]
pub enum LibError {
    /// Local failures and undifferentiated application-level HTTP errors.
    InternalServerError,
    /// A per-attempt deadline was breached.
    TimeOut,
    /// A transport-level send failure; carries the transport's message.
    IOError(String),
    /// A named resource was absent.
    NotFound(String),
    Unauthorized,
    Forbidden,
    /// An out-of-set string was met where a closed enum value was expected.
    InvalidDeviceMode,
}

impl Clone for LibError {
    /// Cloning an error yields the same error value.
    fn clone(&self) -> (r: LibError)
        ensures
            r == *self,
    {
        match self {
            LibError::InternalServerError => LibError::InternalServerError,
            LibError::TimeOut => LibError::TimeOut,
            LibError::IOError(s) => LibError::IOError(s.clone()),
            LibError::NotFound(s) => LibError::NotFound(s.clone()),
            LibError::Unauthorized => LibError::Unauthorized,
            LibError::Forbidden => LibError::Forbidden,
            LibError::InvalidDeviceMode => LibError::InvalidDeviceMode,
        }
    }
}

impl LibError {
    /// The human-readable text of this error kind.
    pub open spec fn spec_message(&self) -> Seq<char> {
        match self {
            LibError::InternalServerError => "InternalError"@,
            LibError::TimeOut => "request timeout"@,
            LibError::IOError(_) => "IOError"@,
            LibError::NotFound(s) => s@ + ", Not found"@,
            LibError::Unauthorized => "Unauthorized"@,
            LibError::Forbidden => "Forbidden"@,
            LibError::InvalidDeviceMode => "Invalid device mode"@,
        }
    }

    /// Renders the error as text, one fixed message per kind.
    pub fn message(&self) -> (r: String)
        ensures
            r@ == self.spec_message(),
    {
        match self {
            LibError::InternalServerError => "InternalError".to_owned(),
            LibError::TimeOut => "request timeout".to_owned(),
            LibError::IOError(_) => "IOError".to_owned(),
            LibError::NotFound(s) => s.clone().concat(", Not found"),
            LibError::Unauthorized => "Unauthorized".to_owned(),
            LibError::Forbidden => "Forbidden".to_owned(),
            LibError::InvalidDeviceMode => "Invalid device mode".to_owned(),
        }
    }
}

} // verus!
