//! Transport core of the Dfns API client: configuration checks, the user-action
//! signing protocol, the JSON it writes, upload framing and response handling.

pub mod client;
pub mod error;
pub mod exchange;
pub mod json;
pub mod outside;
pub mod signer;
pub mod text;

pub use client::{Client, Options};
pub use error::Error;
