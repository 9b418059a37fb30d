//! Typed parameter binding and request shaping for a warehouse SQL client.
//!
//! `converter` turns native scalars into typed wire values, `requests` holds
//! the statement builder and the login and renewal requests, `encoding` says
//! which fields each of them has on the wire, over the tree in `wire`, and
//! `decimal` writes the numerals that values and positions need.

pub mod converter;
pub mod decimal;
pub mod encoding;
pub mod requests;
pub mod wire;
