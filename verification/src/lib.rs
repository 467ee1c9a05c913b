//! The client side of a roam connection: a byte stream to a host that has accepted this
//! device's key.
//!
//! * [`identity`]: make a secret key and derive the public key that a host sees. The caller
//!   keeps the bytes; nothing is stored here.
//! * [`card`] and [`connect`]: find a host by its connection card, dial it and complete the
//!   handshake.
//! * [`stream`] and [`writing`]: read, write and close the stream.
//! * [`capi`]: the same for callers that speak C.
//!
//! The decisions are made here; the network is reached by the caller. A connection attempt and a
//! write are sequences of steps: the caller performs a step and hands its outcome back. A read
//! that has to wait says so, and the caller reads again once its reader has queued something.

pub mod base64_text;
pub mod capi;
pub mod card;
pub mod connect;
pub mod error;
pub mod identity;
pub mod stream;
pub mod stream_history;
pub mod stream_laws;
pub mod text;
pub mod writing;

pub use card::card_fingerprint;
pub use connect::roam_connect;
pub use error::RoamError;
pub use identity::{identity_generate, identity_public_key};
pub use stream::RoamStream;
