//! File transfer over HTTP.

pub mod download_handler;
pub mod http_server;
pub mod upload_handler;

use vstd::prelude::*;

verus! {

/// The port of the HTTP transfer service.
pub const HTTP_PORT: u16 = 8080;

} // verus!
