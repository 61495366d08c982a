//! What can go wrong, and what a caller of the read endpoint is told.

use vstd::prelude::*;
use vstd::string::*;

verus! {

/// Status of a reply to a request that the service could not accept.
pub const STATUS_BAD_REQUEST: u16 = 400;

/// Status of a reply to a request that failed inside the service.
pub const STATUS_INTERNAL_SERVER_ERROR: u16 = 500;

/// Why a query was not answered.
#[derive(Debug, PartialEq, Eq)]
pub enum AppError {
    /// The store failed. The text is the store's own account of it, for the
    /// log; it is never sent to the caller.
    Database(String),
    /// An argument of the request was refused. The text says which and why.
    ValueError(String),
}

/// Why a refresh of the snapshot did not complete.
#[derive(Debug, PartialEq, Eq)]
pub enum ReconcileError {
    /// The source returned no node at all, which in steady state it never
    /// does: nothing was written.
    EmptyResult,
    /// A write to the store failed. Earlier writes of the same refresh stay.
    Store(String),
}

/// Why the ranking could not be fetched.
#[derive(Debug, PartialEq, Eq)]
pub enum FetchError {
    /// The request did not go through, or the source answered with an error.
    Transport(String),
    /// The answer was not a list of nodes.
    Decode(String),
}

/// Why one refresh cycle failed.
#[derive(Debug, PartialEq, Eq)]
pub enum CycleError {
    Fetch(FetchError),
    Reconcile(ReconcileError),
}

/// A reply that reports an error: a status code and a plain-text body.
#[derive(Debug, PartialEq, Eq)]
pub struct ErrorResponse {
    pub status: u16,
    pub body: String,
}

impl AppError {
    /// The status code that reports this error.
    pub open spec fn status(self) -> u16 {
        match self {
            AppError::Database(_) => STATUS_INTERNAL_SERVER_ERROR,
            AppError::ValueError(_) => STATUS_BAD_REQUEST,
        }
    }

    /// The text sent to the caller: the reason for a refused argument, and
    /// the same few words for every failure of the store.
    pub open spec fn public_text(self) -> Seq<char> {
        match self {
            AppError::Database(_) => "Internal Server Error"@,
            AppError::ValueError(reason) => reason@,
        }
    }

    /// The reply that reports this error to the caller.
    pub fn into_response(self) -> (reply: ErrorResponse)
        ensures
            reply.status == self.status(),
            reply.body@ == self.public_text(),
    {
        match self {
            AppError::Database(_) => ErrorResponse {
                status: STATUS_INTERNAL_SERVER_ERROR,
                body: String::from_str("Internal Server Error"),
            },
            AppError::ValueError(reason) => ErrorResponse {
                status: STATUS_BAD_REQUEST,
                body: reason,
            },
        }
    }
}

} // verus!
