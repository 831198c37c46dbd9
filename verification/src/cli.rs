//! The command line of the server:
//! `fernfs [--host <HOST>] [--port <PORT>] [--allow-unprivileged-source-port] <DIRECTORY>`.
//!
//! The arguments are read from left to right. `--host`/`-h` and `--port`/`-p`
//! take the next argument as their value, or a value after `=`
//! (`--host=`, `-h=`, `--port=`); `--help` asks for the usage text at once;
//! any other argument starting with `-` is an unknown flag; the first other
//! argument is the directory to serve, and a second one is an error. A later
//! `--host` or `--port` overrides an earlier one.

use vstd::prelude::*;

verus! {

/// The host the server binds to when none is given.
pub const DEFAULT_HOST: &'static str = "127.0.0.1";

/// The port the server binds to when none is given.
pub const DEFAULT_PORT: u16 = 11111;

/// What the server is asked to do.
pub struct ServerConfig {
    /// The host to bind to.
    pub host: String,
    /// The port to bind to.
    pub port: u16,
    /// The directory to serve.
    pub directory: String,
    /// Whether clients must connect from a privileged source port (below 1024).
    pub require_privileged_source_port: bool,
}

/// What the command line asks for.
pub enum CliCommand {
    /// Print the usage text and exit successfully.
    Help,
    /// Serve a directory.
    Serve(ServerConfig),
}

/// Why a command line is refused.
pub enum CliError {
    /// A flag that takes a value ends the command line.
    MissingValue(String),
    /// The host given is empty.
    EmptyHost,
    /// The port given is not a number from 0 to 65535.
    InvalidPort(String),
    /// An argument starts with `-` but is no known flag.
    UnknownFlag(String),
    /// A second directory is given.
    UnexpectedArgument(String),
    /// No directory is given.
    MissingDirectory,
}

/// The abstract outcome of reading a command line.
pub enum CliOutcome {
    Help,
    Serve { host: Seq<char>, port: u16, directory: Seq<char>, require_privileged_source_port: bool },
    MissingValue(Seq<char>),
    EmptyHost,
    InvalidPort(Seq<char>),
    UnknownFlag(Seq<char>),
    UnexpectedArgument(Seq<char>),
    MissingDirectory,
}

/// The abstract outcome that a parse result stands for.
pub open spec fn outcome_of(r: Result<CliCommand, CliError>) -> CliOutcome {
    match r {
        Ok(CliCommand::Help) => CliOutcome::Help,
        Ok(CliCommand::Serve(c)) => CliOutcome::Serve {
            host: c.host@,
            port: c.port,
            directory: c.directory@,
            require_privileged_source_port: c.require_privileged_source_port,
        },
        Err(CliError::MissingValue(flag)) => CliOutcome::MissingValue(flag@),
        Err(CliError::EmptyHost) => CliOutcome::EmptyHost,
        Err(CliError::InvalidPort(v)) => CliOutcome::InvalidPort(v@),
        Err(CliError::UnknownFlag(a)) => CliOutcome::UnknownFlag(a@),
        Err(CliError::UnexpectedArgument(a)) => CliOutcome::UnexpectedArgument(a@),
        Err(CliError::MissingDirectory) => CliOutcome::MissingDirectory,
    }
}

/// The settings gathered from the arguments read so far.
pub struct CliState {
    pub require_privileged_source_port: bool,
    pub host: Seq<char>,
    pub port: u16,
    pub directory: Option<Seq<char>>,
}

/// The settings before any argument is read.
pub open spec fn initial_state() -> CliState {
    CliState {
        require_privileged_source_port: true,
        host: DEFAULT_HOST@,
        port: DEFAULT_PORT,
        directory: None,
    }
}

/// `c` is an ASCII decimal digit.
pub open spec fn is_digit(c: char) -> bool {
    '0' <= c && c <= '9'
}

/// The value of the decimal digit `c`.
pub open spec fn digit_value(c: char) -> int {
    c as int - '0' as int
}

/// The value of the decimal numeral `s`.
pub open spec fn decimal_value(s: Seq<char>) -> int
    decreases s.len(),
{
    if s.len() == 0 {
        0
    } else {
        10 * decimal_value(s.drop_last()) + digit_value(s.last())
    }
}

/// The digits of a port number `s`: what follows its `+` sign, if it has one.
pub open spec fn port_digits(s: Seq<char>) -> Seq<char> {
    if s.len() > 0 && s[0] == '+' {
        s.drop_first()
    } else {
        s
    }
}

/// Every character of `s` is an ASCII decimal digit.
pub open spec fn all_digits(s: Seq<char>) -> bool {
    forall|i: int| 0 <= i < s.len() ==> is_digit(#[trigger] s[i])
}

/// The port that `s` names, as `u16::from_str` reads it: an optional `+`,
/// then one or more ASCII digits whose value is at most 65535.
pub open spec fn spec_parse_port(s: Seq<char>) -> Option<u16> {
    let digits = port_digits(s);
    if digits.len() > 0 && all_digits(digits) && decimal_value(digits) <= u16::MAX {
        Some(decimal_value(digits) as u16)
    } else {
        None
    }
}

/// `prefix` is a prefix of `s`.
pub open spec fn has_char_prefix(s: Seq<char>, prefix: Seq<char>) -> bool {
    prefix.len() <= s.len() && s.subrange(0, prefix.len() as int) == prefix
}

/// The outcome of setting the host to `value` and reading on from argument `next`.
pub open spec fn after_host(args: Seq<Seq<char>>, next: int, st: CliState, value: Seq<char>) -> CliOutcome
    decreases args.len() - next, 1int,
{
    if value.len() == 0 {
        CliOutcome::EmptyHost
    } else {
        spec_parse_from(args, next, CliState { host: value, ..st })
    }
}

/// The outcome of setting the port to `value` and reading on from argument `next`.
pub open spec fn after_port(args: Seq<Seq<char>>, next: int, st: CliState, value: Seq<char>) -> CliOutcome
    decreases args.len() - next, 1int,
{
    match spec_parse_port(value) {
        Some(port) => spec_parse_from(args, next, CliState { port, ..st }),
        None => CliOutcome::InvalidPort(value),
    }
}

/// The outcome of reading the arguments from index `i` on, with the settings `st`.
pub open spec fn spec_parse_from(args: Seq<Seq<char>>, i: int, st: CliState) -> CliOutcome
    decreases args.len() - i, 0int,
{
    if i >= args.len() {
        match st.directory {
            Some(directory) => CliOutcome::Serve {
                host: st.host,
                port: st.port,
                directory,
                require_privileged_source_port: st.require_privileged_source_port,
            },
            None => CliOutcome::MissingDirectory,
        }
    } else {
        let arg = args[i];
        if arg == "--allow-unprivileged-source-port"@ {
            spec_parse_from(args, i + 1, CliState { require_privileged_source_port: false, ..st })
        } else if arg == "--host"@ || arg == "-h"@ {
            if i + 1 >= args.len() {
                CliOutcome::MissingValue("--host"@)
            } else {
                after_host(args, i + 2, st, args[i + 1])
            }
        } else if arg == "--port"@ || arg == "-p"@ {
            if i + 1 >= args.len() {
                CliOutcome::MissingValue("--port"@)
            } else {
                after_port(args, i + 2, st, args[i + 1])
            }
        } else if arg == "--help"@ {
            CliOutcome::Help
        } else if has_char_prefix(arg, "--host="@) {
            after_host(args, i + 1, st, arg.subrange("--host="@.len() as int, arg.len() as int))
        } else if has_char_prefix(arg, "-h="@) {
            after_host(args, i + 1, st, arg.subrange("-h="@.len() as int, arg.len() as int))
        } else if has_char_prefix(arg, "--port="@) {
            after_port(args, i + 1, st, arg.subrange("--port="@.len() as int, arg.len() as int))
        } else if has_char_prefix(arg, "-"@) {
            CliOutcome::UnknownFlag(arg)
        } else if st.directory is Some {
            CliOutcome::UnexpectedArgument(arg)
        } else {
            spec_parse_from(args, i + 1, CliState { directory: Some(arg), ..st })
        }
    }
}

/// The views of the arguments.
pub open spec fn arg_views(args: Seq<String>) -> Seq<Seq<char>> {
    args.map_values(|a: String| a@)
}

/// The characters of `s`.
pub fn chars_of(s: &str) -> (cs: Vec<char>)
    ensures
        cs@ == s@,
{
    let mut cs: Vec<char> = Vec::new();
    for c in it: s.chars()
        invariant
            cs@ == it.seq().take(it.index() as int),
    {
        cs.push(c);
    }
    cs
}

/// `String::from_iter` over the characters `cs`: the string made of them.
#[verifier::external_body]
fn string_from_chars(cs: &[char]) -> (s: String)
    ensures
        s@ == cs@,
{
    String::from_iter(cs.iter())
}

/// Whether `s` starts with `prefix`.
fn starts_with_chars(s: &[char], prefix: &[char]) -> (starts: bool)
    ensures
        starts == has_char_prefix(s@, prefix@),
{
    if prefix.len() > s.len() {
        return false;
    }
    let mut i: usize = 0;
    while i < prefix.len()
        invariant
            prefix@.len() <= s@.len(),
            i <= prefix@.len(),
            forall|j: int| 0 <= j < i ==> s@[j] == prefix@[j],
        decreases prefix@.len() - i,
    {
        if s[i] != prefix[i] {
            assert(s@.subrange(0, prefix@.len() as int)[i as int] != prefix@[i as int]);
            return false;
        }
        i = i + 1;
    }
    assert(s@.subrange(0, prefix@.len() as int) =~= prefix@);
    true
}

/// Whether `s` is exactly the characters of `t`.
fn same_chars(s: &[char], t: &str) -> (same: bool)
    ensures
        same == (s@ == t@),
{
    let t = chars_of(t);
    if s.len() != t.len() {
        return false;
    }
    let same = starts_with_chars(s, t.as_slice());
    assert(s@.subrange(0, t@.len() as int) =~= s@);
    same
}

/// The characters of `s` from index `start` on.
fn chars_from(s: &[char], start: usize) -> (rest: Vec<char>)
    requires
        start <= s@.len(),
    ensures
        rest@ == s@.subrange(start as int, s@.len() as int),
{
    let mut rest: Vec<char> = Vec::new();
    let mut i: usize = start;
    while i < s.len()
        invariant
            start <= i <= s@.len(),
            rest@ == s@.subrange(start as int, i as int),
        decreases s@.len() - i,
    {
        rest.push(s[i]);
        assert(s@.subrange(start as int, i + 1) =~= s@.subrange(start as int, i as int).push(s@[i as int]));
        i = i + 1;
    }
    rest
}

/// A numeral's value is at least that of any of its prefixes.
proof fn lemma_decimal_prefix(s: Seq<char>, n: int)
    requires
        0 <= n <= s.len(),
        forall|i: int| 0 <= i < s.len() ==> is_digit(#[trigger] s[i]),
    ensures
        decimal_value(s) >= decimal_value(s.subrange(0, n)),
    decreases s.len(),
{
    if n < s.len() {
        let t = s.drop_last();
        assert forall|i: int| 0 <= i < t.len() implies is_digit(#[trigger] t[i]) by {
            assert(t[i] == s[i]);
        }
        lemma_decimal_prefix(t, n);
        assert(t.subrange(0, n) =~= s.subrange(0, n));
        assert(is_digit(s[s.len() - 1]));
        lemma_decimal_nonnegative(t);
    } else {
        assert(s.subrange(0, n) =~= s);
    }
}

/// A numeral's value is not negative.
proof fn lemma_decimal_nonnegative(s: Seq<char>)
    requires
        forall|i: int| 0 <= i < s.len() ==> is_digit(#[trigger] s[i]),
    ensures
        decimal_value(s) >= 0,
    decreases s.len(),
{
    if s.len() > 0 {
        let t = s.drop_last();
        assert forall|i: int| 0 <= i < t.len() implies is_digit(#[trigger] t[i]) by {
            assert(t[i] == s[i]);
        }
        lemma_decimal_nonnegative(t);
        assert(is_digit(s[s.len() - 1]));
    }
}

/// The port that `value` names, read as `u16::from_str` reads a number.
pub fn parse_port(value: &[char]) -> (port: Option<u16>)
    ensures
        port == spec_parse_port(value@),
{
    let start: usize = if value.len() > 0 && value[0] == '+' {
        1
    } else {
        0
    };
    let ghost digits = value@.subrange(start as int, value@.len() as int);
    assert(digits =~= port_digits(value@));
    if start >= value.len() {
        return None;
    }
    let mut acc: u32 = 0;
    let mut i: usize = start;
    while i < value.len()
        invariant
            start <= i <= value@.len(),
            digits == value@.subrange(start as int, value@.len() as int),
            digits == port_digits(value@),
            forall|j: int| 0 <= j < i - start ==> is_digit(#[trigger] digits[j]),
            acc == decimal_value(digits.subrange(0, i - start)),
            acc <= u16::MAX,
        decreases value@.len() - i,
    {
        let c = value[i];
        let ghost prefix = digits.subrange(0, i - start);
        let ghost longer = digits.subrange(0, i + 1 - start);
        assert(digits[i - start] == c);
        if !('0' <= c && c <= '9') {
            assert(!is_digit(digits[i - start]));
            assert(!all_digits(digits));
            return None;
        }
        assert(longer.drop_last() =~= prefix);
        assert(longer.last() == c);
        let d = (c as u32) - ('0' as u32);
        acc = acc * 10 + d;
        assert(acc == decimal_value(longer));
        i = i + 1;
        if acc > 65535 {
            proof {
                assert forall|j: int| 0 <= j < i - start implies is_digit(#[trigger] longer[j]) by {
                    assert(longer[j] == digits[j]);
                }
                if all_digits(digits) {
                    lemma_decimal_prefix(digits, i - start);
                    assert(decimal_value(digits) > u16::MAX);
                }
            }
            return None;
        }
    }
    assert(digits.subrange(0, digits.len() as int) =~= digits);
    Some(acc as u16)
}

/// The settings that the values gathered so far stand for.
pub open spec fn state_of(
    require_privileged_source_port: bool,
    host: String,
    port: u16,
    directory: Option<String>,
) -> CliState {
    CliState {
        require_privileged_source_port,
        host: host@,
        port,
        directory: match directory {
            Some(d) => Some(d@),
            None => None,
        },
    }
}

/// Reads the command line `args` (the arguments after the program's name).
#[verifier::spinoff_prover]
#[verifier::rlimit(40)]
pub fn parse_args(args: &Vec<String>) -> (parsed: Result<CliCommand, CliError>)
    ensures
        outcome_of(parsed) == spec_parse_from(arg_views(args@), 0, initial_state()),
{
    let ghost views = arg_views(args@);
    let mut require_privileged_source_port = true;
    let mut host: String = DEFAULT_HOST.to_owned();
    let mut port: u16 = DEFAULT_PORT;
    let mut directory: Option<String> = None;
    let mut i: usize = 0;
    while i < args.len()
        invariant
            views == arg_views(args@),
            views.len() == args@.len(),
            i <= args@.len(),
            spec_parse_from(views, 0, initial_state()) == spec_parse_from(
                views,
                i as int,
                state_of(require_privileged_source_port, host, port, directory),
            ),
        decreases args@.len() - i,
    {
        let ghost st = state_of(require_privileged_source_port, host, port, directory);
        assert(views[i as int] == args@[i as int]@);
        let arg = chars_of(args[i].as_str());
        if same_chars(arg.as_slice(), "--allow-unprivileged-source-port") {
            require_privileged_source_port = false;
            i = i + 1;
        } else if same_chars(arg.as_slice(), "--host") || same_chars(arg.as_slice(), "-h") {
            if i + 1 >= args.len() {
                return Err(CliError::MissingValue("--host".to_owned()));
            }
            assert(views[i + 1] == args@[i + 1]@);
            if args[i + 1].as_str().is_empty() {
                assert(views[i + 1].len() == 0);
                assert(after_host(views, i + 2, st, views[i + 1]) == CliOutcome::EmptyHost);
                assert(spec_parse_from(views, i as int, st) == CliOutcome::EmptyHost);
                return Err(CliError::EmptyHost);
            }
            host = args[i + 1].clone();
            i = i + 2;
        } else if same_chars(arg.as_slice(), "--port") || same_chars(arg.as_slice(), "-p") {
            if i + 1 >= args.len() {
                return Err(CliError::MissingValue("--port".to_owned()));
            }
            assert(views[i + 1] == args@[i + 1]@);
            let value = chars_of(args[i + 1].as_str());
            match parse_port(value.as_slice()) {
                Some(p) => {
                    port = p;
                    i = i + 2;
                },
                None => {
                    assert(after_port(views, i + 2, st, views[i + 1]) == CliOutcome::InvalidPort(views[i + 1]));
                    assert(spec_parse_from(views, i as int, st) == CliOutcome::InvalidPort(views[i + 1]));
                    return Err(CliError::InvalidPort(args[i + 1].clone()));
                },
            }
        } else if same_chars(arg.as_slice(), "--help") {
            return Ok(CliCommand::Help);
        } else {
            let host_eq = chars_of("--host=");
            let h_eq = chars_of("-h=");
            let port_eq = chars_of("--port=");
            let dash = chars_of("-");
            if starts_with_chars(arg.as_slice(), host_eq.as_slice()) {
                let value = chars_from(arg.as_slice(), host_eq.len());
                if value.len() == 0 {
                    assert(after_host(views, i + 1, st, value@) == CliOutcome::EmptyHost);
                    assert(spec_parse_from(views, i as int, st) == CliOutcome::EmptyHost);
                    return Err(CliError::EmptyHost);
                }
                host = string_from_chars(value.as_slice());
                i = i + 1;
            } else if starts_with_chars(arg.as_slice(), h_eq.as_slice()) {
                let value = chars_from(arg.as_slice(), h_eq.len());
                if value.len() == 0 {
                    assert(after_host(views, i + 1, st, value@) == CliOutcome::EmptyHost);
                    assert(spec_parse_from(views, i as int, st) == CliOutcome::EmptyHost);
                    return Err(CliError::EmptyHost);
                }
                host = string_from_chars(value.as_slice());
                i = i + 1;
            } else if starts_with_chars(arg.as_slice(), port_eq.as_slice()) {
                let value = chars_from(arg.as_slice(), port_eq.len());
                match parse_port(value.as_slice()) {
                    Some(p) => {
                        port = p;
                        i = i + 1;
                    },
                    None => {
                        let shown = string_from_chars(value.as_slice());
                        assert(after_port(views, i + 1, st, value@) == CliOutcome::InvalidPort(value@));
                        assert(spec_parse_from(views, i as int, st) == CliOutcome::InvalidPort(value@));
                        return Err(CliError::InvalidPort(shown));
                    },
                }
            } else if starts_with_chars(arg.as_slice(), dash.as_slice()) {
                return Err(CliError::UnknownFlag(args[i].clone()));
            } else if directory.is_some() {
                return Err(CliError::UnexpectedArgument(args[i].clone()));
            } else {
                directory = Some(args[i].clone());
                i = i + 1;
            }
        }
    }
    match directory {
        Some(directory) => Ok(
            CliCommand::Serve(
                ServerConfig { host, port, directory, require_privileged_source_port },
            ),
        ),
        None => Err(CliError::MissingDirectory),
    }
}

/// The decimal digit for `d`.
pub open spec fn digit_char(d: int) -> char {
    ('0' as int + d) as char
}

/// The decimal numeral of `n`, without leading zeros.
pub open spec fn spec_decimal(n: nat) -> Seq<char>
    decreases n,
{
    if n < 10 {
        seq![digit_char(n as int)]
    } else {
        spec_decimal(n / 10) + seq![digit_char((n % 10) as int)]
    }
}

/// Appends the decimal numeral of `n` to `out`.
fn push_decimal(n: u32, out: &mut Vec<char>)
    ensures
        final(out)@ == old(out)@ + spec_decimal(n as nat),
    decreases n,
{
    if n >= 10 {
        push_decimal(n / 10, out);
    }
    let d = n % 10;
    let c = char_from_digit(d);
    out.push(c);
    assert(out@ =~= old(out)@ + spec_decimal(n as nat));
}

/// The character of the decimal digit `d`.
fn char_from_digit(d: u32) -> (c: char)
    requires
        d < 10,
    ensures
        c == digit_char(d as int),
{
    if d == 0 {
        '0'
    } else if d == 1 {
        '1'
    } else if d == 2 {
        '2'
    } else if d == 3 {
        '3'
    } else if d == 4 {
        '4'
    } else if d == 5 {
        '5'
    } else if d == 6 {
        '6'
    } else if d == 7 {
        '7'
    } else if d == 8 {
        '8'
    } else {
        '9'
    }
}

/// The decimal numeral of `n` is made of digits and has the value `n`.
proof fn lemma_decimal_value(n: nat)
    ensures
        spec_decimal(n).len() > 0,
        all_digits(spec_decimal(n)),
        decimal_value(spec_decimal(n)) == n,
    decreases n,
{
    let s = spec_decimal(n);
    let d = (n % 10) as int;
    assert(digit_char(d) as int == '0' as int + d);
    if n < 10 {
        assert(s.drop_last() =~= Seq::<char>::empty());
        assert(decimal_value(s.drop_last()) == 0);
        assert(s.last() == digit_char(d));
        assert(decimal_value(s) == 10 * decimal_value(s.drop_last()) + digit_value(s.last()));
    } else {
        lemma_decimal_value(n / 10);
        let t = spec_decimal(n / 10);
        assert(s.drop_last() =~= t);
        assert(s.last() == digit_char(d));
        assert(decimal_value(s) == 10 * decimal_value(t) + d);
        assert forall|i: int| 0 <= i < s.len() implies is_digit(#[trigger] s[i]) by {
            if i < t.len() {
                assert(s[i] == t[i]);
            }
        }
    }
}

/// The port written in an address is read back as the same port.
pub proof fn law_port_numeral_roundtrip(port: u16)
    ensures
        spec_parse_port(spec_decimal(port as nat)) == Some(port),
{
    lemma_decimal_value(port as nat);
    let s = spec_decimal(port as nat);
    assert(is_digit(s[0]));
    assert(port_digits(s) == s);
}

/// The address the server binds to: `host:port`, with an IPv6 host (one that
/// holds a `:`) put in square brackets unless it already is.
pub open spec fn spec_bind_address(host: Seq<char>, port: u16) -> Seq<char> {
    let shown = if host.contains(':') && !(host.len() > 0 && host[0] == '[' && host.last() == ']') {
        seq!['['] + host + seq![']']
    } else {
        host
    };
    shown + seq![':'] + spec_decimal(port as nat)
}

/// The bind address is the host, in square brackets when it holds a `:`
/// (an IPv6 address) and is not bracketed already, then `:`, then a numeral
/// that reads back as the port.
pub proof fn law_bind_address_form(host: Seq<char>, port: u16)
    ensures
        ({
            let addr = spec_bind_address(host, port);
            let has_colon = exists|i: int| 0 <= i < host.len() && host[i] == ':';
            let bracketed = host.len() >= 1 && host[0] == '[' && host[host.len() - 1] == ']';
            &&& has_colon && !bracketed ==> {
                &&& addr.len() > host.len() + 3
                &&& addr.subrange(0, host.len() + 3int) == seq!['['] + host + seq![']', ':']
                &&& spec_parse_port(addr.subrange(host.len() + 3int, addr.len() as int)) == Some(port)
            }
            &&& !(has_colon && !bracketed) ==> {
                &&& addr.len() > host.len() + 1
                &&& addr.subrange(0, host.len() + 1int) == host + seq![':']
                &&& spec_parse_port(addr.subrange(host.len() + 1int, addr.len() as int)) == Some(port)
            }
        }),
{
    law_port_numeral_roundtrip(port);
    lemma_decimal_value(port as nat);
    let digits = spec_decimal(port as nat);
    let addr = spec_bind_address(host, port);
    let has_colon = exists|i: int| 0 <= i < host.len() && host[i] == ':';
    if has_colon {
        let i = choose|i: int| 0 <= i < host.len() && host[i] == ':';
        assert(host.contains(host[i]));
    }
    if host.contains(':') {
        assert(has_colon);
    }
    if host.contains(':') && !(host.len() > 0 && host[0] == '[' && host.last() == ']') {
        let front = seq!['['] + host + seq![']', ':'];
        assert(addr =~= front + digits);
        assert(addr.subrange(0, host.len() + 3int) =~= front);
        assert(addr.subrange(host.len() + 3int, addr.len() as int) =~= digits);
    } else {
        let front = host + seq![':'];
        assert(addr =~= front + digits);
        assert(addr.subrange(0, host.len() + 1int) =~= front);
        assert(addr.subrange(host.len() + 1int, addr.len() as int) =~= digits);
    }
}

/// The address to bind to for `host` and `port`.
pub fn bind_address(host: &str, port: u16) -> (addr: String)
    ensures
        addr@ == spec_bind_address(host@, port),
{
    let h = chars_of(host);
    let mut has_colon = false;
    let mut i: usize = 0;
    while i < h.len()
        invariant
            i <= h@.len(),
            has_colon == exists|j: int| 0 <= j < i && h@[j] == ':',
        decreases h@.len() - i,
    {
        if h[i] == ':' {
            has_colon = true;
        }
        i = i + 1;
    }
    assert(has_colon == h@.contains(':'));
    let bracketed = h.len() > 0 && h[0] == '[' && h[h.len() - 1] == ']';
    let mut out: Vec<char> = Vec::new();
    if has_colon && !bracketed {
        out.push('[');
    }
    let mut k: usize = 0;
    let ghost before = out@;
    while k < h.len()
        invariant
            k <= h@.len(),
            out@ == before + h@.subrange(0, k as int),
        decreases h@.len() - k,
    {
        out.push(h[k]);
        assert(h@.subrange(0, k + 1) =~= h@.subrange(0, k as int).push(h@[k as int]));
        k = k + 1;
    }
    assert(h@.subrange(0, h@.len() as int) =~= h@);
    if has_colon && !bracketed {
        out.push(']');
    }
    out.push(':');
    push_decimal(port as u32, &mut out);
    assert(out@ =~= spec_bind_address(host@, port));
    string_from_chars(out.as_slice())
}

} // verus!
