//! The fixed settings of the server. There is nothing to configure: no
//! flags, no files, no variables.

use vstd::prelude::*;

verus! {

/// The address that the server listens on: the loopback interface only.
pub const ADDRESS: &'static str = "127.0.0.1:8080";

/// The size of the buffer that a request is read into, in bytes. A
/// connection is read once; what a client sends beyond this is never looked
/// at.
pub const READ_BUFFER_SIZE: usize = 1024;

/// How long a read from a connection, or a write to it, may wait, in
/// seconds. A connection that runs into it is given up.
pub const IO_TIMEOUT_SECS: u64 = 5;

} // verus!
