//! Tolliver: a small messaging library that carries opaque, typed payloads over
//! connection-oriented byte streams, with a fast best-effort mode and a durable
//! at-least-once mode backed by a local outbox.
//!
//! The library performs no stream I/O of its own. It decides what goes on the
//! wire and what is kept in the outbox; the caller moves the bytes.

use vstd::prelude::*;

pub mod cli;
pub mod connection;
pub mod error;
pub mod handshake;
pub mod outbox;
pub mod text;
pub mod wire;

verus! {

/// The version of the protocol.
pub const VERSION: u16 = 0;

/// The number of bytes the version number is encoded in.
pub const VERSION_LENGTH: usize = 2;

/// The number of bytes the API key is encoded in.
pub const API_KEY_LENGTH: usize = 32;

/// The number of bytes the handshake code is encoded in.
pub const HANDSHAKE_CODE_LENGTH: usize = 1;

/// The API key that a server expects as long as it is given no other: 32
/// zero bytes.
pub fn temp_api_key() -> (api_key: [u8; 32])
    ensures
        forall|i: int| 0 <= i < API_KEY_LENGTH ==> api_key@[i] == 0,
{
    [0u8; 32]
}

/// The file that holds the outbox, in the working directory.
pub const DB_PATH: &'static str = "tolliver.db";

/// The address a listener binds when none is given: every interface, and a
/// port of the system's choosing.
pub const DEFAULT_BIND_ADDRESS: &'static str = "0.0.0.0:0";

/// The address a stand-alone server binds when none is given.
pub const DEFAULT_SERVER_ADDRESS: &'static str = "0.0.0.0:8080";

} // verus!
