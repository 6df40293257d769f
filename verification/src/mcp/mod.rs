//! The bridge between a running reader and an agent.

pub mod extract;
pub mod json;
pub mod laws;
pub mod members;
pub mod protocol;
pub mod reader_listener;
pub mod server;
pub mod text;

use vstd::prelude::*;

verus! {

/// Where the reader listens: the directory and the name of the socket in it.
///
/// Stable singleton path under the user's config dir; fall back to temp, under a
/// name that tells whose socket it is.
pub fn mcp_socket_path<D>(config_dir: Option<D>, temp_dir: D) -> (place: (D, &'static str))
    ensures
        config_dir matches Some(dir) ==> place.0 == dir && place.1@ == "reader.sock"@,
        config_dir is None ==> place.0 == temp_dir && place.1@ == "bookokrat-reader.sock"@,
{
    match config_dir {
        Some(dir) => (dir, "reader.sock"),
        None => (temp_dir, "bookokrat-reader.sock"),
    }
}

} // verus!
