//! Server dispatch: from a resolved configuration to the one action the
//! process takes, and from a run outcome to the process exit code.
//!
//! Starting a server and blocking in its run loop is network I/O and
//! happens outside this library; what is decided here, and proved, is
//! which server is started with which inputs, and which exit status each
//! outcome maps to.

use vstd::prelude::*;
use crate::addr::SockAddr;
use crate::config::Mode;
use crate::config::ServerConfig;

verus! {

/// The one action a resolved invocation performs.
///
/// The two modes receive the address differently, on purpose: the HTTP
/// server is handed the raw `ip:port` text and fails loudly when it is
/// not a usable address, while the TFTP server is handed the parsed
/// address or, when the text did not parse, `None`, and then binds to a
/// backend-chosen default.
pub enum ServerAction {
    /// Serve `root` over HTTP, bound to the address written in
    /// `bind_text`.
    ServeHttp { root: String, bind_text: String },
    /// Serve `root` over TFTP, bound to `bind`, or to a backend-chosen
    /// default when `bind` is `None`.
    ServeTftp { root: String, bind: Option<SockAddr> },
    /// Start no server: print a note and exit cleanly.
    DoNothing,
}

/// Decide the action for a resolved invocation.
///
/// No configuration (no subcommand was given) starts no server; a
/// configuration starts exactly the server of its mode, on its directory,
/// with its address.
pub fn plan(config: Option<ServerConfig>) -> (r: ServerAction)
    ensures
        config is None <==> r is DoNothing,
        config is Some && config->0.mode == Mode::Http ==> (r matches ServerAction::ServeHttp {
            root,
            bind_text,
        } && root@ == config->0.directory@ && bind_text@ == config->0.addr_text@),
        config is Some && config->0.mode == Mode::Tftp ==> (r matches ServerAction::ServeTftp {
            root,
            bind,
        } && root@ == config->0.directory@ && bind == config->0.addr),
{
    match config {
        None => ServerAction::DoNothing,
        Some(c) => match c.mode {
            Mode::Http => ServerAction::ServeHttp { root: c.directory, bind_text: c.addr_text },
            Mode::Tftp => ServerAction::ServeTftp { root: c.directory, bind: c.addr },
        },
    }
}

/// How an invocation ended, as far as this tool decides it.
///
/// A failure to build or bind a server aborts the process by a panic in
/// the unverified binary and never reaches this mapping; the HTTP run
/// loop never returns normally.
#[derive(Clone, Copy, PartialEq, Eq, Structural, Debug)]
pub enum RunOutcome {
    /// No subcommand was given, so no server was started.
    NoServerRequested,
    /// The TFTP server's run loop returned without error.
    TftpCompleted,
    /// The TFTP server's run loop reported an error. Every such error is
    /// mapped to a failing exit status.
    TftpFailed,
}

/// Map a run outcome to the process exit status: zero exactly on the
/// clean outcomes, one on a server-reported error.
pub fn exit_code(outcome: RunOutcome) -> (r: i32)
    ensures
        r == 0 <==> (outcome is NoServerRequested || outcome is TftpCompleted),
        outcome is TftpFailed ==> r == 1,
{
    match outcome {
        RunOutcome::NoServerRequested => 0,
        RunOutcome::TftpCompleted => 0,
        RunOutcome::TftpFailed => 1,
    }
}

} // verus!
