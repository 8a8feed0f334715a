//! The ways in which fetching metadata fails.

use crate::text::{decimal, to_decimal};
use vstd::prelude::*;
use vstd::string::*;

verus! {

/// Why an attempt to reach the metadata service came to nothing.
#[derive(Debug, Clone, Copy, PartialEq, Eq, Structural)]
pub enum Cause {
    /// No response: the connection failed or timed out.
    Unreachable,
    /// A response with this status.
    Status(u16),
}

/// An error that ends a fetch.
#[derive(Debug, Clone, PartialEq, Eq)]
pub enum FetchError {
    /// The provider's name is none of those that are supported.
    UnknownProvider(String),
    /// Every attempt that the client allows failed in a way that a later one
    /// might not have; the cause is that of the last attempt.
    TransportTransient(Cause),
    /// The service refused the request: a client error other than 404, or 404
    /// from a client that does not take it for absence.
    TransportPermanent(u16),
    /// The body of a response is not what the requested format asks for.
    DecodeFailure,
    /// An entry of the SSH key listing is not of the form `index=name`.
    MalformedKeyListing,
    /// A key that the listing names has no key material.
    MissingKeyMaterial,
}

/// A `FetchError` with its text as a sequence of characters.
pub enum FetchErrorView {
    UnknownProvider(Seq<char>),
    TransportTransient(Cause),
    TransportPermanent(u16),
    DecodeFailure,
    MalformedKeyListing,
    MissingKeyMaterial,
}

impl View for FetchError {
    type V = FetchErrorView;

    open spec fn view(&self) -> FetchErrorView {
        match self {
            FetchError::UnknownProvider(name) => FetchErrorView::UnknownProvider(name@),
            FetchError::TransportTransient(cause) => FetchErrorView::TransportTransient(*cause),
            FetchError::TransportPermanent(code) => FetchErrorView::TransportPermanent(*code),
            FetchError::DecodeFailure => FetchErrorView::DecodeFailure,
            FetchError::MalformedKeyListing => FetchErrorView::MalformedKeyListing,
            FetchError::MissingKeyMaterial => FetchErrorView::MissingKeyMaterial,
        }
    }
}

impl FetchErrorView {
    /// The message that describes the error.
    pub open spec fn message(self) -> Seq<char> {
        match self {
            FetchErrorView::UnknownProvider(name) => "unknown provider '"@ + name + "'"@,
            FetchErrorView::TransportTransient(Cause::Unreachable) => "timed out: failed to fetch"@,
            FetchErrorView::TransportTransient(Cause::Status(code)) => "timed out: failed to fetch: "@
                + decimal(code as nat),
            FetchErrorView::TransportPermanent(code) => "failed to fetch: "@ + decimal(code as nat),
            FetchErrorView::DecodeFailure => "failed to deserialize data"@,
            FetchErrorView::MalformedKeyListing => "malformed public key"@,
            FetchErrorView::MissingKeyMaterial => "missing ssh key"@,
        }
    }
}

impl FetchError {
    /// The message that describes the error.
    pub fn message(&self) -> (r: String)
        ensures
            r@ == self@.message(),
    {
        match self {
            FetchError::UnknownProvider(name) => {
                String::from_str("unknown provider '").concat(name.as_str()).concat("'")
            },
            FetchError::TransportTransient(Cause::Unreachable) => {
                String::from_str("timed out: failed to fetch")
            },
            FetchError::TransportTransient(Cause::Status(code)) => {
                String::from_str("timed out: failed to fetch: ").concat(
                    to_decimal(*code).as_str(),
                )
            },
            FetchError::TransportPermanent(code) => {
                String::from_str("failed to fetch: ").concat(to_decimal(*code).as_str())
            },
            FetchError::DecodeFailure => String::from_str("failed to deserialize data"),
            FetchError::MalformedKeyListing => String::from_str("malformed public key"),
            FetchError::MissingKeyMaterial => String::from_str("missing ssh key"),
        }
    }
}

} // verus!
