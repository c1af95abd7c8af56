//! # thin-jsonrpc-client
//!
//! This crate provides a lightweight JSON-RPC compatible client around something that can send
//! bytes and something that can hand them back. It is independent of the backend and of any
//! async runtime: what has to be awaited, locked or woken is left to the caller, and each step in
//! between is a function with a contract.
//!
//! - [`client`] makes requests and notifications, and drives the receipt of messages.
//! - [`response_stream`] hands the messages that come in to the streams that take them.
//! - [`raw_response`], [`response`] and [`from_response`] hold what comes back.
//! - [`params`] builds the parameters of requests.
//! - [`backend`] connects a client to some server.
//! - [`json`], [`layout`], [`fields`], [`compose`] and [`text`] read and write messages.
//! - [`laws`], [`runs`], [`lives`], [`literal`] and [`wire`] prove what holds of the client as a
//!   whole.
//! - [`calls`], [`deliveries`] and [`replies`] say what single calls come to, and [`decoding`] and
//!   [`grammar`] what a message has to hold and how it has to be written.
pub mod backend;
pub mod calls;
pub mod client;
pub mod compose;
pub mod decoding;
pub mod deliveries;
pub mod fields;
pub mod from_response;
pub mod grammar;
pub mod json;
pub mod laws;
pub mod layout;
pub mod literal;
pub mod lives;
pub mod params;
pub mod raw_response;
pub mod replies;
pub mod response;
pub mod response_stream;
pub mod runs;
pub mod text;
pub mod wire;

pub use client::{
    Client, ClientDriver, ClientDriverError, RequestError, ServerNotificationStream,
    ServerNotifications,
};
pub use response::{Response, ResponseError};
