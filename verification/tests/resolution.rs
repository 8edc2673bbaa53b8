use whatevertp::addr::SockAddr;
use whatevertp::config::resolve;
use whatevertp::config::CliArgs;
use whatevertp::config::ConfigError;
use whatevertp::config::Mode;
use whatevertp::config::SubcommandArgs;
use whatevertp::dispatch::exit_code;
use whatevertp::dispatch::plan;
use whatevertp::dispatch::RunOutcome;
use whatevertp::dispatch::ServerAction;

fn args(sub: Option<(Mode, &str)>) -> CliArgs {
    CliArgs {
        ip: "0.0.0.0".to_string(),
        port: "3333".to_string(),
        subcommand: sub.map(|(mode, dir)| SubcommandArgs { mode, dir: dir.to_string() }),
    }
}

#[test]
fn no_subcommand_resolves_to_nothing_and_exits_zero() {
    let r = resolve(args(None), None, None);
    let cfg = r.expect("no subcommand is not an error");
    assert!(cfg.is_none());
    let action = plan(cfg);
    assert!(matches!(action, ServerAction::DoNothing));
    assert_eq!(exit_code(RunOutcome::NoServerRequested), 0);
}

#[test]
fn missing_directory_is_fatal_in_either_mode() {
    let r = resolve(args(Some((Mode::Http, "/no/such/dir"))), None, None);
    assert_eq!(r.err(), Some(ConfigError::InvalidDirectory));
    let r = resolve(args(Some((Mode::Tftp, "/no/such/dir"))), None, None);
    assert_eq!(r.err(), Some(ConfigError::InvalidDirectory));
}

#[test]
fn http_mode_gets_the_raw_address_text() {
    let r = resolve(args(Some((Mode::Http, "site"))), Some("/srv/site".to_string()), None);
    let cfg = r.expect("directory exists").expect("a subcommand was given");
    assert_eq!(cfg.mode, Mode::Http);
    assert_eq!(cfg.directory, "/srv/site");
    assert_eq!(cfg.addr_text, "0.0.0.0:3333");
    match plan(Some(cfg)) {
        ServerAction::ServeHttp { root, bind_text } => {
            assert_eq!(root, "/srv/site");
            assert_eq!(bind_text, "0.0.0.0:3333");
        },
        _ => panic!("http mode must plan an http server"),
    }
}

#[test]
fn tftp_mode_gets_the_parsed_address() {
    let parsed = Some(SockAddr::V4 { a: 0, b: 0, c: 0, d: 0, port: 3333 });
    let r = resolve(args(Some((Mode::Tftp, "boot"))), Some("/srv/boot".to_string()), parsed);
    let cfg = r.expect("directory exists").expect("a subcommand was given");
    assert_eq!(cfg.mode, Mode::Tftp);
    assert_eq!(cfg.addr, parsed);
    match plan(Some(cfg)) {
        ServerAction::ServeTftp { root, bind } => {
            assert_eq!(root, "/srv/boot");
            assert_eq!(bind, parsed);
        },
        _ => panic!("tftp mode must plan a tftp server"),
    }
}

#[test]
fn tftp_mode_keeps_a_failed_address_parse_as_none() {
    let r = resolve(args(Some((Mode::Tftp, "boot"))), Some("/srv/boot".to_string()), None);
    let cfg = r.expect("directory exists").expect("a subcommand was given");
    assert_eq!(cfg.addr, None);
    match plan(Some(cfg)) {
        ServerAction::ServeTftp { bind, .. } => assert_eq!(bind, None),
        _ => panic!("tftp mode must plan a tftp server"),
    }
}

#[test]
fn exit_codes_follow_the_outcome() {
    assert_eq!(exit_code(RunOutcome::NoServerRequested), 0);
    assert_eq!(exit_code(RunOutcome::TftpCompleted), 0);
    assert_eq!(exit_code(RunOutcome::TftpFailed), 1);
}
