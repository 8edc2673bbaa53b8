//! Serve one local directory over HTTP or TFTP, chosen by a subcommand.
//!
//! The verified core of the tool is the argument resolution and dispatch
//! logic: turning raw command-line values into a server configuration,
//! deciding which server to start, and mapping run outcomes to exit
//! codes. The servers themselves are network I/O and live outside this
//! library.

pub mod addr;
pub mod config;
pub mod decimal;
pub mod dispatch;
