//! The error that ends a run.

use vstd::prelude::*;

verus! {

/// The layer of the system that a failure is attributed to.
#[derive(Clone, Copy, Debug, PartialEq, Eq, Structural)]
pub enum ErrorLayer {
    /// A query parameter was malformed or missing.
    BadInput,
    /// The query backend failed.
    Backend,
    /// A scheduled task could not be joined.
    Scheduling,
}

/// The failing layer and a message for the caller.
#[derive(Debug)]
pub struct ErrorDetails {
    pub layer: ErrorLayer,
    pub message: String,
}

impl Clone for ErrorDetails {
    fn clone(&self) -> (copy: Self)
        ensures
            copy == *self,
    {
        ErrorDetails { layer: self.layer, message: self.message.clone() }
    }
}

/// The one terminal error of a run.  Nothing at this level retries.
#[derive(Debug)]
pub enum ServerError {
    StickyProblem(ErrorDetails),
}

impl Clone for ServerError {
    fn clone(&self) -> (copy: Self)
        ensures
            copy == *self,
    {
        match self {
            ServerError::StickyProblem(details) => ServerError::StickyProblem(details.clone()),
        }
    }
}

pub type Result<T> = std::result::Result<T, ServerError>;

impl ServerError {
    /// The layer this error is attributed to.
    pub open spec fn spec_layer(&self) -> ErrorLayer {
        match self {
            ServerError::StickyProblem(details) => details.layer,
        }
    }

    /// The message carried by this error.
    pub open spec fn spec_message(&self) -> Seq<char> {
        match self {
            ServerError::StickyProblem(details) => details.message@,
        }
    }

    /// An error that blames the caller's input.
    pub fn bad_input(message: &str) -> (err: ServerError)
        ensures
            err.spec_layer() == ErrorLayer::BadInput,
            err.spec_message() == message@,
    {
        ServerError::StickyProblem(
            ErrorDetails { layer: ErrorLayer::BadInput, message: message.to_owned() },
        )
    }

    /// The layer this error is attributed to.
    pub fn layer(&self) -> (layer: ErrorLayer)
        ensures
            layer == self.spec_layer(),
    {
        match self {
            ServerError::StickyProblem(details) => details.layer,
        }
    }

    /// The message carried by this error.
    pub fn message(&self) -> (message: String)
        ensures
            message@ == self.spec_message(),
    {
        match self {
            ServerError::StickyProblem(details) => details.message.clone(),
        }
    }
}

} // verus!
