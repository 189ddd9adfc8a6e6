//! The core of a reverse proxy at the edge. For every request it finds the
//! decision that says how the request and its response are to be changed,
//! in a cache first and then at the decision engine, for a bounded time; it
//! goes to the origin or answers in its place; and it applies the decision
//! to the status, the headers and the body of the response.
//!
//! Nothing here reads or sends anything. Where work outside is needed, a
//! search (`action`) or a handling (`proxy`) gives a command and takes what
//! happened as an event.

pub mod action;
pub mod cookie;
pub mod fingerprint;
pub mod header;
pub mod number;
pub mod proxy;
pub mod request;
pub mod settings;
pub mod telemetry;
pub mod text;
