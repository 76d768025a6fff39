//! Verified core of an ICAP-style response-adaptation client: preview
//! negotiation, request encoding, chunked body framing, response parsing,
//! the status-code dispatcher, and the connection reuse lifecycle.

pub mod adapter;
pub mod body;
pub mod client;
pub mod connection;
pub mod decode;
pub mod dispatch;
pub mod encode;
pub mod error;
pub mod listen;
pub mod preview;
pub mod response;
pub mod scan;
pub mod tokens;
pub mod transfer;
