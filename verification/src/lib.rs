//! Verified core of a minimal inbound-webhook receiver.
//!
//! The library holds everything the receiver decides: parsing of
//! `application/x-www-form-urlencoded` bodies and query strings, token
//! authentication, and the choice of HTTP reply or store write.  The
//! surrounding binary only moves bytes between the network, this library
//! and the key-value store.

pub mod form;
pub mod message;
pub mod auth;
pub mod reply;
pub mod handler;
