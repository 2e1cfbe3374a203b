//! A verified codec for the DNS OPT pseudo-record (EDNS, RFC 6891).
//!
//! The OPT record re-purposes the `class` and `TTL` fields of a standard
//! record to carry extension metadata: a maximum UDP payload size, the high
//! bits of an extended response code, an EDNS version number, sixteen flag
//! bits, and an opaque length-prefixed payload. Because of that re-purposing
//! it cannot go through the generic record codec; this crate reads and
//! writes exactly the bytes that follow the shared record header.
//!
//! The [`wire`] module provides a forward-only byte cursor and the error
//! raised when it runs out of input; the [`opt`] module holds the record
//! type itself, its wire-layout specification, and the encode and decode
//! operations together with proofs that they invert each other.

pub mod opt;
pub mod wire;
