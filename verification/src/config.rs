//! Startup configuration and the state shared by request handlers.

use vstd::prelude::*;

verus! {

/// The options a server process starts with: where the tiles live, where to
/// bind, and how much to log. Collected once at process start and never
/// changed afterwards.
pub struct Args {
    /// Directory containing tile images.
    pub tiles_dir: String,
    /// Host to bind the server to.
    pub host: String,
    /// Port to bind the server to.
    pub port: u16,
    /// Log level (error, warn, info, debug, trace).
    pub log_level: String,
}

/// The one object shared by every concurrent request handler: the root
/// directory under which tiles are stored. Immutable after construction — no
/// method takes `&mut self` — so handlers share it read-only without locking.
pub struct AppState {
    tiles_dir: String,
}

impl AppState {
    /// The configured tile root directory.
    pub closed spec fn root(self) -> Seq<char> {
        self.tiles_dir@
    }

    pub fn new(tiles_dir: String) -> (state: AppState)
        ensures
            state.root() == tiles_dir@,
    {
        AppState { tiles_dir }
    }

    pub fn tiles_dir(&self) -> (dir: &str)
        ensures
            dir@ == self.root(),
    {
        self.tiles_dir.as_str()
    }
}

} // verus!
