//! Errors of the allowlist service, each with the HTTP status it is answered with.

use vstd::prelude::*;

verus! {

/// The class of an error of the allowlist service.
#[derive(Clone, Copy, Debug, PartialEq, Eq, Structural)]
pub enum ErrorKind {
    /// The request is malformed: status 400.
    BadRequest,
    /// The tree or leaf asked for does not exist: status 404.
    NotFound,
    /// The service failed on its own side: status 500.
    Internal,
}

/// An error of the allowlist service: its class and the message sent to the client.
#[derive(Debug)]
pub struct AppError {
    pub kind: ErrorKind,
    pub message: String,
}

/// An error as plain values.
pub struct ErrorView {
    pub kind: ErrorKind,
    pub message: Seq<char>,
}

impl View for AppError {
    type V = ErrorView;

    open spec fn view(&self) -> ErrorView {
        ErrorView { kind: self.kind, message: self.message@ }
    }
}

/// The HTTP status code of an error class.
pub open spec fn spec_status_code(kind: ErrorKind) -> u16 {
    match kind {
        ErrorKind::BadRequest => 400,
        ErrorKind::NotFound => 404,
        ErrorKind::Internal => 500,
    }
}

impl AppError {
    /// A malformed request.
    pub fn bad_request(message: String) -> (r: AppError)
        ensures
            r@ == (ErrorView { kind: ErrorKind::BadRequest, message: message@ }),
    {
        AppError { kind: ErrorKind::BadRequest, message }
    }

    /// A missing tree or leaf.
    pub fn not_found(message: String) -> (r: AppError)
        ensures
            r@ == (ErrorView { kind: ErrorKind::NotFound, message: message@ }),
    {
        AppError { kind: ErrorKind::NotFound, message }
    }

    /// A failure on the service's side.
    pub fn internal(message: String) -> (r: AppError)
        ensures
            r@ == (ErrorView { kind: ErrorKind::Internal, message: message@ }),
    {
        AppError { kind: ErrorKind::Internal, message }
    }

    /// The HTTP status code that the error is answered with.
    pub fn status_code(&self) -> (r: u16)
        ensures
            r == spec_status_code(self.kind),
    {
        match self.kind {
            ErrorKind::BadRequest => 400,
            ErrorKind::NotFound => 404,
            ErrorKind::Internal => 500,
        }
    }
}

} // verus!
