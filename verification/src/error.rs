//! The error taxonomy of the client, with its mathematical model.
use vstd::prelude::*;

verus! {

/// A typed client error. Message text is carried as bytes.
#[derive(Debug, PartialEq, Eq)]
pub enum ProfError {
    /// Transport-level failure, with the transport's own message.
    Http(Vec<u8>),
    /// Malformed JSON where JSON was mandatory.
    Serialization(Vec<u8>),
    /// The service reported a failure, or the envelope shape was unexpected.
    Service(Vec<u8>),
    /// No signing identity is configured.
    Auth(Vec<u8>),
    /// The resource was not found.
    NotFound(Vec<u8>),
    /// The service rejected the request with a structured list of problems.
    Validation { errors: Vec<Vec<u8>> },
}

/// The model of a client error.
pub enum ErrorModel {
    Http(Seq<u8>),
    Serialization(Seq<u8>),
    Service(Seq<u8>),
    Auth(Seq<u8>),
    NotFound(Seq<u8>),
    Validation(Seq<Seq<u8>>),
}

impl View for ProfError {
    type V = ErrorModel;

    open spec fn view(&self) -> ErrorModel {
        match self {
            ProfError::Http(m) => ErrorModel::Http(m@),
            ProfError::Serialization(m) => ErrorModel::Serialization(m@),
            ProfError::Service(m) => ErrorModel::Service(m@),
            ProfError::Auth(m) => ErrorModel::Auth(m@),
            ProfError::NotFound(m) => ErrorModel::NotFound(m@),
            ProfError::Validation { errors } => ErrorModel::Validation(
                errors@.map_values(|e: Vec<u8>| e@),
            ),
        }
    }
}

} // verus!
