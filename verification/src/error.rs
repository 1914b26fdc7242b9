//! Error types of the client.

use vstd::prelude::*;

verus! {

/// A structured error returned by the Dfns API.
#[derive(Debug, Clone)]
pub struct ApiError {
    pub message: String,
    pub code: Option<String>,
}

/// The content of an [`ApiError`].
#[verifier::ext_equal]
pub struct ApiErrorView {
    pub message: Seq<char>,
    pub code: Option<Seq<char>>,
}

impl View for ApiError {
    type V = ApiErrorView;

    open spec fn view(&self) -> ApiErrorView {
        ApiErrorView { message: self.message@, code: self.code.deep_view() }
    }
}

/// All error variants surfaced by the client.
#[derive(Debug)]
pub enum Error {
    /// The API returned a non-2xx status with a decodable error body.
    Api { status: u16, body: ApiError },
    /// The API returned a non-2xx status with an undecodable body.
    ApiRaw { status: u16, raw: String },
    /// Invalid client configuration (base URL or auth token).
    Config(String),
    /// A user-action-signed request was issued without a configured signer.
    SignerRequired,
    /// The signer failed to produce an assertion.
    Signer(String),
    /// Transport-level failure (connection, timeout, ...).
    Transport(reqwest::Error),
    /// (De)serialization failure.
    Serde(serde_json::Error),
}

/// The content of an [`Error`].
#[verifier::ext_equal]
pub enum ErrorView {
    Api { status: u16, body: ApiErrorView },
    ApiRaw { status: u16, raw: Seq<char> },
    Config(Seq<char>),
    SignerRequired,
    Signer(Seq<char>),
    Transport(reqwest::Error),
    Serde(serde_json::Error),
}

impl View for Error {
    type V = ErrorView;

    open spec fn view(&self) -> ErrorView {
        match self {
            Error::Api { status, body } => ErrorView::Api { status: *status, body: body@ },
            Error::ApiRaw { status, raw } => ErrorView::ApiRaw { status: *status, raw: raw@ },
            Error::Config(m) => ErrorView::Config(m@),
            Error::SignerRequired => ErrorView::SignerRequired,
            Error::Signer(m) => ErrorView::Signer(m@),
            Error::Transport(e) => ErrorView::Transport(*e),
            Error::Serde(e) => ErrorView::Serde(*e),
        }
    }
}

} // verus!
