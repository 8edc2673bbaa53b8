//! Argument resolution: from raw command-line values to a server
//! configuration.
//!
//! The caller (the unverified binary) reads the command line and the
//! filesystem and hands this module plain values: the `--ip` and `--port`
//! texts, the chosen subcommand with its directory argument, the
//! canonicalized form of that directory if it exists, and the socket
//! address parsed from the `ip:port` text if it parses. The resolution
//! itself — which of those inputs yield a configuration, and what it
//! holds — is decided and proved here.

use vstd::prelude::*;
use crate::addr::ip_port_string;
use crate::addr::SockAddr;

verus! {

/// The two kinds of server this tool can start.
#[derive(Clone, Copy, PartialEq, Eq, Structural, Debug)]
pub enum Mode {
    Http,
    Tftp,
}

/// The subcommand chosen on the command line: a mode and its required
/// directory argument, as typed by the user.
pub struct SubcommandArgs {
    pub mode: Mode,
    pub dir: String,
}

/// The raw command-line values, before resolution.
pub struct CliArgs {
    pub ip: String,
    pub port: String,
    pub subcommand: Option<SubcommandArgs>,
}

/// Why resolution failed.
#[derive(Clone, Copy, PartialEq, Eq, Structural, Debug)]
pub enum ConfigError {
    /// The directory argument does not name an existing directory: it has
    /// no canonical form. This is fatal in either mode.
    InvalidDirectory,
}

/// A resolved server configuration: the mode, the canonicalized directory
/// to serve, the `ip:port` text, and the socket address that text parses
/// to, if it parses.
///
/// `addr` is `None` when the `ip:port` text is not a socket-address
/// literal. The two modes treat that case differently, on purpose: the
/// TFTP server falls back to a bind address of the backend's choosing,
/// while the HTTP server is handed `addr_text` itself and fails loudly.
pub struct ServerConfig {
    pub mode: Mode,
    pub directory: String,
    pub addr_text: String,
    pub addr: Option<SockAddr>,
}

/// Resolve raw command-line values into a server configuration.
///
/// `canonical_dir` is the canonical form of the subcommand's directory
/// argument, or `None` if it does not name an existing path; it is read
/// from the filesystem by the caller. `parsed_addr` is the socket address
/// that the `ip:port` text denotes, or `None` if it is not a
/// socket-address literal.
///
/// With no subcommand there is nothing to do and no error: the result is
/// `Ok(None)`. With a subcommand, a directory without a canonical form is
/// fatal, and otherwise the configuration holds exactly the resolved
/// values.
pub fn resolve(
    args: CliArgs,
    canonical_dir: Option<String>,
    parsed_addr: Option<SockAddr>,
) -> (r: Result<Option<ServerConfig>, ConfigError>)
    ensures
        args.subcommand is None <==> (r matches Ok(c) && c is None),
        (args.subcommand is Some && canonical_dir is None) <==> r == Err::<
            Option<ServerConfig>,
            ConfigError,
        >(ConfigError::InvalidDirectory),
        (args.subcommand is Some && canonical_dir is Some) ==> (r matches Ok(c) && c matches Some(
            cfg,
        ) && cfg.mode == args.subcommand->0.mode && cfg.directory@ == canonical_dir->0@
            && cfg.addr_text@ == args.ip@ + ":"@ + args.port@ && cfg.addr == parsed_addr),
{
    match args.subcommand {
        None => Ok(None),
        Some(sub) => match canonical_dir {
            None => Err(ConfigError::InvalidDirectory),
            Some(dir) => {
                let addr_text = ip_port_string(args.ip.as_str(), args.port.as_str());
                Ok(
                    Some(
                        ServerConfig {
                            mode: sub.mode,
                            directory: dir,
                            addr_text,
                            addr: parsed_addr,
                        },
                    ),
                )
            },
        },
    }
}

} // verus!
