//! Session-level transport core of a server-driven UI framework.
//!
//! One session bridges a single persistent client connection to a dynamic,
//! per-view set of publish/subscribe topics: client interaction events become
//! topic broadcasts, and UI deltas broadcast by the rendering engine become
//! frames pushed back to the client.  The decision logic — frame decoding,
//! topic naming, outbound envelope construction, and the session state
//! machine with its mount handshake and disconnect cleanup — lives here and
//! is verified; the surrounding I/O (the socket and the pub/sub backend) is
//! driven by a thin unverified shell that performs the actions this library
//! emits.

pub mod decode;
pub mod session;
pub mod encode;
pub mod json;
pub mod laws;
pub mod topic;
pub mod view_id;

