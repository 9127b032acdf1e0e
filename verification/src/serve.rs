//! Where the provider listens.

use vstd::prelude::*;

verus! {

/// Options of the `serve` command.
#[derive(Debug)]
pub struct ServeOpts {
    /// TCP port to listen on.
    pub port: Option<u16>,
    /// Unix socket path to listen on.
    pub socket: Option<String>,
}

/// The port where the provider listens unless it is told otherwise.
pub const DEFAULT_PORT: u16 = 9090;

/// What the provider listens on.
#[derive(Debug, PartialEq, Eq)]
pub enum Listener {
    Tcp(u16),
    Unix(String),
}

impl ServeOpts {
    /// What to listen on: a port goes before a socket.
    pub fn listener(self) -> (r: Listener)
        ensures
            match (self.port, self.socket) {
                (Some(port), _) => r == Listener::Tcp(port),
                (None, Some(path)) => r == Listener::Unix(path),
                (None, None) => r == Listener::Tcp(DEFAULT_PORT),
            },
    {
        match (self.port, self.socket) {
            (Some(port), _) => Listener::Tcp(port),
            (None, Some(path)) => Listener::Unix(path),
            (None, None) => Listener::Tcp(DEFAULT_PORT),
        }
    }
}

} // verus!
