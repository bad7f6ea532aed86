//! The protocol core of a minimal HTTP/1.1 server: a request parser, a
//! response builder and a fixed routing table, each with a verified contract.
//!
//! Nothing here touches a socket. A caller reads bytes from a connection,
//! passes them to [`router::respond`], and writes back what it returns.

pub mod decimal;
pub mod header;
pub mod lossy;
pub mod request;
pub mod response;
pub mod router;
pub mod server;
pub mod text;
