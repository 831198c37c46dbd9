use fernfs::cli::{bind_address, parse_args, parse_port, CliCommand, CliError, DEFAULT_HOST, DEFAULT_PORT};

fn args(list: &[&str]) -> Vec<String> {
    list.iter().map(|s| s.to_string()).collect()
}

fn chars(s: &str) -> Vec<char> {
    s.chars().collect()
}

#[test]
fn defaults_with_directory_only() {
    match parse_args(&args(&["/srv"])) {
        Ok(CliCommand::Serve(c)) => {
            assert_eq!(c.host, DEFAULT_HOST);
            assert_eq!(c.port, DEFAULT_PORT);
            assert_eq!(c.directory, "/srv");
            assert!(c.require_privileged_source_port);
        }
        _ => panic!("expected a server configuration"),
    }
}

#[test]
fn all_flags() {
    let cases = [
        args(&["--host", "0.0.0.0", "--port", "2049", "--allow-unprivileged-source-port", "/data"]),
        args(&["-h", "0.0.0.0", "-p", "+2049", "/data", "--allow-unprivileged-source-port"]),
        args(&["--host=0.0.0.0", "--port=2049", "--allow-unprivileged-source-port", "/data"]),
        args(&["-h=0.0.0.0", "--port=1", "--port=2049", "--allow-unprivileged-source-port", "/data"]),
    ];
    for case in cases.iter() {
        match parse_args(case) {
            Ok(CliCommand::Serve(c)) => {
                assert_eq!(c.host, "0.0.0.0");
                assert_eq!(c.port, 2049);
                assert_eq!(c.directory, "/data");
                assert!(!c.require_privileged_source_port);
            }
            _ => panic!("expected a server configuration for {case:?}"),
        }
    }
}

#[test]
fn help_wins_when_reached() {
    assert!(matches!(parse_args(&args(&["--help", "--bogus"])), Ok(CliCommand::Help)));
    assert!(matches!(parse_args(&args(&["/a", "--help"])), Ok(CliCommand::Help)));
    assert!(matches!(parse_args(&args(&["--bogus", "--help"])), Err(CliError::UnknownFlag(f)) if f == "--bogus"));
}

#[test]
fn command_line_errors() {
    assert!(matches!(parse_args(&args(&[])), Err(CliError::MissingDirectory)));
    assert!(matches!(parse_args(&args(&["--port"])), Err(CliError::MissingValue(f)) if f == "--port"));
    assert!(matches!(parse_args(&args(&["/a", "-h"])), Err(CliError::MissingValue(f)) if f == "--host"));
    assert!(matches!(parse_args(&args(&["--host", "", "/a"])), Err(CliError::EmptyHost)));
    assert!(matches!(parse_args(&args(&["--host=", "/a"])), Err(CliError::EmptyHost)));
    assert!(matches!(parse_args(&args(&["-p", "70000", "/a"])), Err(CliError::InvalidPort(v)) if v == "70000"));
    assert!(matches!(parse_args(&args(&["--port=x1", "/a"])), Err(CliError::InvalidPort(v)) if v == "x1"));
    assert!(matches!(parse_args(&args(&["-x", "/a"])), Err(CliError::UnknownFlag(f)) if f == "-x"));
    assert!(matches!(parse_args(&args(&["/a", "/b"])), Err(CliError::UnexpectedArgument(a)) if a == "/b"));
}

#[test]
fn ports_read_like_u16_from_str() {
    for s in ["0", "80", "+80", "0080", "65535", "65536", "", "+", "-1", "8 0", "１", "99999999999"] {
        assert_eq!(parse_port(&chars(s)), s.parse::<u16>().ok(), "for {s:?}");
    }
}

#[test]
fn bind_addresses() {
    assert_eq!(bind_address("127.0.0.1", 11111), "127.0.0.1:11111");
    assert_eq!(bind_address("::1", 2049), "[::1]:2049");
    assert_eq!(bind_address("[::1]", 0), "[::1]:0");
    assert_eq!(bind_address("localhost", 65535), "localhost:65535");
}
