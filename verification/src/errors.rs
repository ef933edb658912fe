use vstd::prelude::*;

verus! {

/// The HTTP client's error (`reqwest::Error`), carried through unchanged.
#[verifier::external_type_specification]
#[verifier::external_body]
pub struct ExReqwestError(reqwest::Error);

/// The retry middleware's error (`reqwest_middleware::Error`), carried through unchanged.
#[verifier::external_type_specification]
#[verifier::external_body]
pub struct ExMiddlewareError(reqwest_middleware::Error);

/// An I/O error (`std::io::Error`, which `tokio::io::Error` names), carried through unchanged.
#[verifier::external_type_specification]
#[verifier::external_body]
pub struct ExIoError(std::io::Error);

/// A URL parsing error (`url::ParseError`), carried through unchanged.
#[verifier::external_type_specification]
#[verifier::external_body]
pub struct ExUrlParseError(url::ParseError);

/// A progress bar template error (`indicatif::style::TemplateError`), carried through unchanged.
#[verifier::external_type_specification]
#[verifier::external_body]
pub struct ExTemplateError(indicatif::style::TemplateError);

/// A task join error of the async runtime (`tokio::task::JoinError`), carried through unchanged.
#[verifier::external_type_specification]
#[verifier::external_body]
pub struct ExJoinError(tokio::task::JoinError);

/// Error type returned by all fallible operations in this library.
///
/// Each variant wraps the underlying error from the relevant subsystem, so
/// callers can pattern-match on specific failure modes.
#[derive(Debug)]
pub enum DownloadError {
    /// An error from the underlying HTTP client.
    Reqwest(reqwest::Error),
    /// An error from the retry middleware.
    ReqwestMiddleware(reqwest_middleware::Error),
    /// An I/O error.
    Tokio(std::io::Error),
    /// A URL parsing error.
    Url(url::ParseError),
    /// An error constructing a progress bar template.
    Indicatif(indicatif::style::TemplateError),
    /// A task join error from the async runtime.
    Join(tokio::task::JoinError),
    /// A domain-level error, e.g. an unrecognised snapshot reference or an
    /// inaccessible paths URL. The inner `String` holds the full message.
    Custom(String),
}

impl From<reqwest::Error> for DownloadError {
    fn from(err: reqwest::Error) -> (e: DownloadError) {
        DownloadError::Reqwest(err)
    }
}

impl vstd::std_specs::convert::FromSpecImpl<reqwest::Error> for DownloadError {
    open spec fn obeys_from_spec() -> bool {
        true
    }

    open spec fn from_spec(err: reqwest::Error) -> DownloadError {
        DownloadError::Reqwest(err)
    }
}

impl From<reqwest_middleware::Error> for DownloadError {
    fn from(err: reqwest_middleware::Error) -> (e: DownloadError) {
        DownloadError::ReqwestMiddleware(err)
    }
}

impl vstd::std_specs::convert::FromSpecImpl<reqwest_middleware::Error> for DownloadError {
    open spec fn obeys_from_spec() -> bool {
        true
    }

    open spec fn from_spec(err: reqwest_middleware::Error) -> DownloadError {
        DownloadError::ReqwestMiddleware(err)
    }
}

impl From<std::io::Error> for DownloadError {
    fn from(err: std::io::Error) -> (e: DownloadError) {
        DownloadError::Tokio(err)
    }
}

impl vstd::std_specs::convert::FromSpecImpl<std::io::Error> for DownloadError {
    open spec fn obeys_from_spec() -> bool {
        true
    }

    open spec fn from_spec(err: std::io::Error) -> DownloadError {
        DownloadError::Tokio(err)
    }
}

impl From<url::ParseError> for DownloadError {
    fn from(err: url::ParseError) -> (e: DownloadError) {
        DownloadError::Url(err)
    }
}

impl vstd::std_specs::convert::FromSpecImpl<url::ParseError> for DownloadError {
    open spec fn obeys_from_spec() -> bool {
        true
    }

    open spec fn from_spec(err: url::ParseError) -> DownloadError {
        DownloadError::Url(err)
    }
}

impl From<indicatif::style::TemplateError> for DownloadError {
    fn from(err: indicatif::style::TemplateError) -> (e: DownloadError) {
        DownloadError::Indicatif(err)
    }
}

impl vstd::std_specs::convert::FromSpecImpl<indicatif::style::TemplateError> for DownloadError {
    open spec fn obeys_from_spec() -> bool {
        true
    }

    open spec fn from_spec(err: indicatif::style::TemplateError) -> DownloadError {
        DownloadError::Indicatif(err)
    }
}

impl From<tokio::task::JoinError> for DownloadError {
    fn from(err: tokio::task::JoinError) -> (e: DownloadError) {
        DownloadError::Join(err)
    }
}

impl vstd::std_specs::convert::FromSpecImpl<tokio::task::JoinError> for DownloadError {
    open spec fn obeys_from_spec() -> bool {
        true
    }

    open spec fn from_spec(err: tokio::task::JoinError) -> DownloadError {
        DownloadError::Join(err)
    }
}

impl From<String> for DownloadError {
    fn from(s: String) -> (e: DownloadError) {
        DownloadError::Custom(s)
    }
}

impl vstd::std_specs::convert::FromSpecImpl<String> for DownloadError {
    open spec fn obeys_from_spec() -> bool {
        true
    }

    open spec fn from_spec(s: String) -> DownloadError {
        DownloadError::Custom(s)
    }
}

/// The message of a `reqwest::Error`, as its `Display` impl writes it (`ToString::to_string`).
///
/// Nothing is claimed of the text: it depends on the error's contents, which are opaque.
#[verifier::external_body]
fn reqwest_error_text(e: &reqwest::Error) -> String {
    e.to_string()
}

/// The message of a `reqwest_middleware::Error`, as its `Display` impl writes it (`ToString::to_string`).
///
/// Nothing is claimed of the text: it depends on the error's contents, which are opaque.
#[verifier::external_body]
fn middleware_error_text(e: &reqwest_middleware::Error) -> String {
    e.to_string()
}

/// The message of a `std::io::Error`, as its `Display` impl writes it (`ToString::to_string`).
///
/// Nothing is claimed of the text: it depends on the error's contents, which are opaque.
#[verifier::external_body]
fn io_error_text(e: &std::io::Error) -> String {
    e.to_string()
}

/// The message of a `url::ParseError`, as its `Display` impl writes it (`ToString::to_string`).
///
/// Nothing is claimed of the text: it depends on the error's contents, which are opaque.
#[verifier::external_body]
fn url_error_text(e: &url::ParseError) -> String {
    e.to_string()
}

/// The message of a `indicatif::style::TemplateError`, as its `Display` impl writes it (`ToString::to_string`).
///
/// Nothing is claimed of the text: it depends on the error's contents, which are opaque.
#[verifier::external_body]
fn template_error_text(e: &indicatif::style::TemplateError) -> String {
    e.to_string()
}

/// The message of a `tokio::task::JoinError`, as its `Display` impl writes it (`ToString::to_string`).
///
/// Nothing is claimed of the text: it depends on the error's contents, which are opaque.
#[verifier::external_body]
fn join_error_text(e: &tokio::task::JoinError) -> String {
    e.to_string()
}

impl DownloadError {
    /// The human-readable message of the error: the underlying error's own message, or,
    /// for a domain-level error, exactly the message it holds.
    pub fn message(&self) -> (s: String)
        ensures
            self matches DownloadError::Custom(m) ==> s@ == m@,
    {
        match self {
            DownloadError::Reqwest(e) => reqwest_error_text(e),
            DownloadError::ReqwestMiddleware(e) => middleware_error_text(e),
            DownloadError::Tokio(e) => io_error_text(e),
            DownloadError::Url(e) => url_error_text(e),
            DownloadError::Indicatif(e) => template_error_text(e),
            DownloadError::Join(e) => join_error_text(e),
            DownloadError::Custom(m) => m.clone(),
        }
    }
}

} // verus!
