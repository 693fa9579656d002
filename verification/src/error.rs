//! Errors of the proxy, each with the HTTP status it is answered with.

use crate::config::ConfigError;
use vstd::prelude::*;

verus! {

/// What can go wrong while a request is handled.
#[derive(Debug)]
pub enum Error {
    /// The configuration is not usable.
    Config(ConfigError),
    /// No provider offers the requested model.
    NoProviders { model: String },
    /// No provider meets the constraints of the policy.
    NoPolicyMatch,
    /// A provider could not be reached or answered with an error.
    Provider(String),
    /// The request to the provider failed in transit.
    Upstream(String),
    /// The request is not acceptable.
    BadRequest(String),
    /// Something inside the proxy failed.
    Internal(String),
    /// The request log could not be read or written.
    Database(String),
}

/// The status code that an error is answered with.
pub open spec fn status_of(e: Error) -> u16 {
    match e {
        Error::Config(_) => 500,
        Error::NoProviders { .. } => 400,
        Error::NoPolicyMatch => 400,
        Error::Provider(_) => 502,
        Error::Upstream(_) => 502,
        Error::BadRequest(_) => 400,
        Error::Internal(_) => 500,
        Error::Database(_) => 500,
    }
}

/// The sentence that describes an error.
pub open spec fn message_of(e: Error) -> Seq<char> {
    match e {
        Error::Config(inner) => "Configuration error: "@ + inner.message_text(),
        Error::NoProviders { model } => "No providers available for model '"@ + model@ + "'"@,
        Error::NoPolicyMatch => "No providers match policy constraints"@,
        Error::Provider(text) => "Provider error: "@ + text@,
        Error::Upstream(text) => "Upstream request failed: "@ + text@,
        Error::BadRequest(text) => "Invalid request: "@ + text@,
        Error::Internal(text) => "Internal error: "@ + text@,
        Error::Database(text) => "Database error: "@ + text@,
    }
}

/// Whether `e` refuses a request for the given reason.
pub open spec fn refuses_request(e: Error, reason: Seq<char>) -> bool {
    e matches Error::BadRequest(text) && text@ == reason
}

impl Error {
    /// The HTTP status code of the response for this error.
    pub fn status_code(&self) -> (r: u16)
        ensures
            r == status_of(*self),
    {
        match self {
            Error::Config(_) => 500,
            Error::NoProviders { .. } => 400,
            Error::NoPolicyMatch => 400,
            Error::Provider(_) => 502,
            Error::Upstream(_) => 502,
            Error::BadRequest(_) => 400,
            Error::Internal(_) => 500,
            Error::Database(_) => 500,
        }
    }

    /// The error as a sentence.
    pub fn message(&self) -> (r: String)
        ensures
            r@ == message_of(*self),
    {
        match self {
            Error::Config(inner) => {
                let mut text = String::from_str("Configuration error: ");
                let detail = inner.message();
                text.append(detail.as_str());
                text
            },
            Error::NoProviders { model } => {
                let mut text = String::from_str("No providers available for model '");
                text.append(model.as_str());
                text.append("'");
                text
            },
            Error::NoPolicyMatch => String::from_str("No providers match policy constraints"),
            Error::Provider(detail) => {
                let mut text = String::from_str("Provider error: ");
                text.append(detail.as_str());
                text
            },
            Error::Upstream(detail) => {
                let mut text = String::from_str("Upstream request failed: ");
                text.append(detail.as_str());
                text
            },
            Error::BadRequest(detail) => {
                let mut text = String::from_str("Invalid request: ");
                text.append(detail.as_str());
                text
            },
            Error::Internal(detail) => {
                let mut text = String::from_str("Internal error: ");
                text.append(detail.as_str());
                text
            },
            Error::Database(detail) => {
                let mut text = String::from_str("Database error: ");
                text.append(detail.as_str());
                text
            },
        }
    }
}

} // verus!
