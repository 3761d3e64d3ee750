//! A verified DNS message engine and iterative resolver core.
//!
//! The crate decodes and encodes RFC1035 wire-format datagrams,
//! resolves compressed domain-name pointers with proven termination on
//! adversarial input, validates question names, decides the UDP-to-TCP
//! fallback of a one-shot transport exchange, and drives the bounded
//! referral walk of the resolution engine. Decoding the encoding of
//! any structurally valid message provably gives the message back, and
//! no decoder panics on malformed bytes.
//!
//! Sockets, the Directory Service and the listen loop live outside the
//! crate; they hand plain values in and take plain values back.

pub mod config;
pub mod defs;
pub mod dns;
pub mod fqdn;
pub mod handler;
pub mod header;
pub mod name;
pub mod question;
pub mod resolver;
pub mod resource;
pub mod strutil;
pub mod transport;
pub mod wire;
