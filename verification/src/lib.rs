//! A typed client core for the Bybit v5 REST API: dual-mode parameter
//! encoding (query string or JSON body), HMAC-SHA256 request signing, signed
//! request assembly, and reply-envelope decoding that tells success from the
//! exchange's in-band errors by the numeric result code alone.
//!
//! The transport is not here: a built request is an inert value, and a
//! caller-supplied function carries it to the exchange and hands the raw
//! reply bytes back to the decoder.
pub mod client;
pub mod envelope;
pub mod json;
pub mod params;
pub mod query;
pub mod request;
pub mod sign;
pub mod text;

pub use client::{AccountType, BybitBalance, Client, FundingBalance};
pub use envelope::{BybitError, BybitErrorCode, FromJson, Response, ResponseError};
pub use json::JsonValue;
pub use params::{EncodeError, Params};
pub use request::{BybitRequest, IntoGetRequest, IntoPostRequest, SignedRequest, MAINNET};
pub use sign::sign;
