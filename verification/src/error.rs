//! The error taxonomy for parsing and verification.
//!
//! Parse-time errors are field-scoped: a malformed field is reported with its
//! name and the underlying cause, so a bad document can be diagnosed without
//! access to the source.  Verification-time outcomes (a bad signature, an
//! algorithm nobody trusts, a key/scheme mismatch) are ordinary values that a
//! threshold-counting caller tallies and continues past.

use vstd::prelude::*;

verus! {

/// Everything that can go wrong while parsing or verifying metadata.
#[derive(Debug, PartialEq, Eq)]
pub enum Error {
    /// A value was not an object (or otherwise not of the required shape).
    MalformedDocument,
    /// A required field was absent; carries the field name.
    MissingField(String),
    /// A field was present but malformed; carries the field name and cause.
    InvalidFieldValue(String, Box<Error>),
    /// A role name string was not one of the four top-level roles.
    UnknownRole(String),
    /// A key of a type this library refuses to trust.
    UnsupportedKeyType(String),
    /// A signature scheme this library refuses to trust.
    UnsupportedSignatureScheme(String),
    /// The key's type cannot support the claimed signature scheme.
    SignatureSchemeKeyTypeMismatch,
    /// The signature did not validate over the message.
    VerificationFailure,
    /// A feature the document asked for that is deliberately not implemented.
    UnsupportedFeature(String),
    /// A role definition whose threshold is below one.
    InvalidThreshold,
}

/// The mathematical model of an `Error`.
#[verifier::ext_equal]
pub enum ErrV {
    MalformedDocument,
    MissingField(Seq<char>),
    InvalidFieldValue(Seq<char>, Box<ErrV>),
    UnknownRole(Seq<char>),
    UnsupportedKeyType(Seq<char>),
    UnsupportedSignatureScheme(Seq<char>),
    SignatureSchemeKeyTypeMismatch,
    VerificationFailure,
    UnsupportedFeature(Seq<char>),
    InvalidThreshold,
}

/// The model of an error: strings become character sequences.
pub open spec fn err_view(e: Error) -> ErrV
    decreases e,
{
    match e {
        Error::MalformedDocument => ErrV::MalformedDocument,
        Error::MissingField(n) => ErrV::MissingField(n@),
        Error::InvalidFieldValue(n, c) => ErrV::InvalidFieldValue(n@, Box::new(err_view(*c))),
        Error::UnknownRole(n) => ErrV::UnknownRole(n@),
        Error::UnsupportedKeyType(n) => ErrV::UnsupportedKeyType(n@),
        Error::UnsupportedSignatureScheme(n) => ErrV::UnsupportedSignatureScheme(n@),
        Error::SignatureSchemeKeyTypeMismatch => ErrV::SignatureSchemeKeyTypeMismatch,
        Error::VerificationFailure => ErrV::VerificationFailure,
        Error::UnsupportedFeature(n) => ErrV::UnsupportedFeature(n@),
        Error::InvalidThreshold => ErrV::InvalidThreshold,
    }
}

impl View for Error {
    type V = ErrV;

    open spec fn view(&self) -> ErrV {
        err_view(*self)
    }
}

/// A missing-field error for the named field.
pub fn missing_field(name: &str) -> (r: Error)
    ensures
        r@ == ErrV::MissingField(name@),
{
    Error::MissingField(name.to_owned())
}

/// A malformed-field error for the named field, with its cause.
pub fn invalid_field(name: &str, cause: Error) -> (r: Error)
    ensures
        r@ == ErrV::InvalidFieldValue(name@, Box::new(cause@)),
{
    Error::InvalidFieldValue(name.to_owned(), Box::new(cause))
}

} // verus!
