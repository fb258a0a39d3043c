//! Client-side core of a crypto brokerage REST binding.
//!
//! The heart of the crate is the request-signing scheme in [`auth`]: every
//! outbound request carries three headers derived from an Ed25519 signature
//! over the exact concatenation of api key, timestamp, path, method and body.
//! The remaining modules build canonical request paths, query strings and
//! JSON bodies for the individual endpoints, and model the decimal wire
//! strings the API uses for quantities and prices.

pub mod account;
pub mod auth;
pub mod decimal;
pub mod digits;
pub mod json;
pub mod market_data;
pub mod orders;
pub mod query;
pub mod request;
pub mod trading;
