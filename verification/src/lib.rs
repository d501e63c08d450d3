//! Named counter and UUID pools, and the request protocol of the daemon
//! that keeps them.

pub mod pool;
pub mod protocol;
pub mod state;
pub mod server;
pub mod cli;
pub mod table;
pub mod laws;
