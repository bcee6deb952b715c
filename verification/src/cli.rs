//! The command line of the `mira` tool: `status`, `watch` and `thumbnail`,
//! each with a stream key and options; and when `watch` prints a status.
use vstd::prelude::*;
use vstd::string::*;

use crate::models::StreamStatus;
use crate::text::{parse_u64, parsed_u64, str_eq, strings_view};

verus! {

/// A subcommand of the tool.
#[derive(Debug, Clone, Copy, PartialEq, Eq, Structural)]
pub enum Subcommand {
    Status,
    Watch,
    Thumbnail,
}

/// An option of a subcommand.
#[derive(Debug, Clone, Copy, PartialEq, Eq, Structural)]
pub enum Flag {
    Url,
    AuthToken,
    PollingInterval,
    Output,
}

/// A required argument that was not given.
#[derive(Debug, Clone, Copy, PartialEq, Eq, Structural)]
pub enum Required {
    Key,
    Url,
    Output,
}

/// Why a command line is refused.
#[derive(Debug, PartialEq, Eq)]
pub enum CliError {
    /// Help was asked for (`-h`, `--help` or `help`).
    HelpRequested,
    /// No subcommand was given.
    MissingSubcommand,
    /// The subcommand is not one of the tool's.
    UnknownSubcommand(String),
    /// An option the subcommand does not have.
    UnknownArgument(String),
    /// An option without its value.
    MissingValue(Flag),
    /// An option given twice.
    DuplicateArgument(Flag),
    /// A value that does not read (the polling interval is a number).
    InvalidValue(Flag, String),
    /// A second stream key.
    UnexpectedArgument(String),
    /// A required argument that is missing.
    MissingRequired(Required),
}

/// What a command line asks for.
#[derive(Debug, PartialEq, Eq)]
pub enum Commands {
    /// Check whether a stream key is online or offline.
    Status { key: String, url: String, auth_token: Option<String> },
    /// Watch a stream key and print its status whenever it changes.
    Watch { key: String, url: String, auth_token: Option<String>, polling_interval: Option<u64> },
    /// Capture a thumbnail of a stream and save it to a file.
    Thumbnail { key: String, url: String, output: String },
}

/// A parsed command line.
#[derive(Debug, PartialEq, Eq)]
pub struct Cli {
    pub command: Commands,
}

/// The values taken from the environment when an option is not given.
pub struct CliEnv {
    /// `BROADCAST_BOX_URL`.
    pub url: Option<String>,
    /// `BROADCAST_BOX_AUTH_TOKEN`.
    pub auth_token: Option<String>,
}

/// The subcommand named `name`.
pub open spec fn subcommand_named(name: Seq<char>) -> Option<Subcommand> {
    if name == "status"@ {
        Some(Subcommand::Status)
    } else if name == "watch"@ {
        Some(Subcommand::Watch)
    } else if name == "thumbnail"@ {
        Some(Subcommand::Thumbnail)
    } else {
        None
    }
}

/// The option of subcommand `sub` spelt `--name`.
pub open spec fn flag_named(sub: Subcommand, name: Seq<char>) -> Option<Flag> {
    if name == "url"@ {
        Some(Flag::Url)
    } else if name == "auth-token"@ && sub != Subcommand::Thumbnail {
        Some(Flag::AuthToken)
    } else if name == "polling-interval"@ && sub == Subcommand::Watch {
        Some(Flag::PollingInterval)
    } else if name == "output"@ && sub == Subcommand::Thumbnail {
        Some(Flag::Output)
    } else {
        None
    }
}

/// Whether an argument starts with `--`.
pub open spec fn is_long(t: Seq<char>) -> bool {
    t.len() >= 2 && t[0] == '-' && t[1] == '-'
}

/// Whether an argument starts with `-` and is more than `-`.
pub open spec fn is_dashed(t: Seq<char>) -> bool {
    t.len() >= 2 && t[0] == '-'
}

/// The position of the first `=` in `t` at or after `j`, if any.
pub open spec fn first_eq_from(t: Seq<char>, j: int) -> Option<int>
    decreases t.len() - j,
{
    if j < 0 || j >= t.len() {
        None
    } else if t[j] == '=' {
        Some(j)
    } else {
        first_eq_from(t, j + 1)
    }
}

/// The position of the first `=` in `t`, if any.
pub open spec fn first_eq(t: Seq<char>) -> Option<int> {
    first_eq_from(t, 0)
}

/// The name of a long option `--name` or `--name=value`.
pub open spec fn long_name(t: Seq<char>) -> Seq<char> {
    match first_eq(t) {
        Some(e) => t.subrange(2, e),
        None => t.subrange(2, t.len() as int),
    }
}

/// The value of a long option written `--name=value`.
pub open spec fn inline_value(t: Seq<char>) -> Option<Seq<char>> {
    match first_eq(t) {
        Some(e) => Some(t.subrange(e + 1, t.len() as int)),
        None => None,
    }
}

/// What has been read so far: the key and the options.
pub struct Parsed {
    pub key: Option<Seq<char>>,
    pub url: Option<Seq<char>>,
    pub auth_token: Option<Seq<char>>,
    pub polling_interval: Option<u64>,
    pub output: Option<Seq<char>>,
}

pub open spec fn has_flag(p: Parsed, f: Flag) -> bool {
    match f {
        Flag::Url => p.url is Some,
        Flag::AuthToken => p.auth_token is Some,
        Flag::PollingInterval => p.polling_interval is Some,
        Flag::Output => p.output is Some,
    }
}

/// The refusals of the parser, as plain values.
pub enum ErrView {
    Help,
    Unknown(Seq<char>),
    MissingValue(Flag),
    Duplicate(Flag),
    Invalid(Flag, Seq<char>),
    Unexpected(Seq<char>),
}

/// Sets option `f` to `v` (the interval read as a number).
pub open spec fn set_flag(p: Parsed, f: Flag, v: Seq<char>) -> Result<Parsed, ErrView> {
    match f {
        Flag::Url => Ok(Parsed { url: Some(v), ..p }),
        Flag::AuthToken => Ok(Parsed { auth_token: Some(v), ..p }),
        Flag::PollingInterval => match parsed_u64(v) {
            Some(n) => Ok(Parsed { polling_interval: Some(n), ..p }),
            None => Err(ErrView::Invalid(f, v)),
        },
        Flag::Output => Ok(Parsed { output: Some(v), ..p }),
    }
}

/// Reads the argument at `i`: the new reading and the next position, or a
/// refusal. `-h` and `--help` ask for help; `--name` takes its value after
/// `=` or as the next argument (which must not start with `-`); an option
/// may be given once; any other `-x` argument is unknown; the first plain
/// argument is the key and a second is unexpected.
pub open spec fn step(sub: Subcommand, args: Seq<Seq<char>>, i: int, p: Parsed) -> Result<(Parsed, int), ErrView> {
    let t = args[i];
    if t == "-h"@ || t == "--help"@ {
        Err(ErrView::Help)
    } else if is_long(t) && t.len() > 2 {
        match flag_named(sub, long_name(t)) {
            None => Err(ErrView::Unknown(t)),
            Some(f) => {
                if has_flag(p, f) {
                    Err(ErrView::Duplicate(f))
                } else {
                    match inline_value(t) {
                        Some(v) => match set_flag(p, f, v) {
                            Ok(q) => Ok((q, i + 1)),
                            Err(e) => Err(e),
                        },
                        None => if i + 1 < args.len() && !(args[i + 1].len() > 0 && args[i + 1][0] == '-') {
                            match set_flag(p, f, args[i + 1]) {
                                Ok(q) => Ok((q, i + 2)),
                                Err(e) => Err(e),
                            }
                        } else {
                            Err(ErrView::MissingValue(f))
                        },
                    }
                }
            },
        }
    } else if is_dashed(t) {
        Err(ErrView::Unknown(t))
    } else if p.key is None {
        Ok((Parsed { key: Some(t), ..p }, i + 1))
    } else {
        Err(ErrView::Unexpected(t))
    }
}

/// Reads the arguments from position `i` on.
pub open spec fn scan(sub: Subcommand, args: Seq<Seq<char>>, i: int, p: Parsed) -> Result<Parsed, ErrView>
    decreases args.len() - i,
{
    if i < 0 || i >= args.len() {
        Ok(p)
    } else {
        match step(sub, args, i, p) {
            Ok((q, j)) => if j > i {
                scan(sub, args, j, q)
            } else {
                Ok(q)
            },
            Err(e) => Err(e),
        }
    }
}

} // verus!

verus! {

/// What has been read so far, as values.
pub struct ParsedArgs {
    pub key: Option<String>,
    pub url: Option<String>,
    pub auth_token: Option<String>,
    pub polling_interval: Option<u64>,
    pub output: Option<String>,
}

pub open spec fn opt_view(o: Option<String>) -> Option<Seq<char>> {
    match o {
        Some(s) => Some(s@),
        None => None,
    }
}

pub open spec fn parsed_view(p: ParsedArgs) -> Parsed {
    Parsed {
        key: opt_view(p.key),
        url: opt_view(p.url),
        auth_token: opt_view(p.auth_token),
        polling_interval: p.polling_interval,
        output: opt_view(p.output),
    }
}

/// The refusal a scanning error stands for.
pub open spec fn err_matches(e: CliError, v: ErrView) -> bool {
    match v {
        ErrView::Help => e == CliError::HelpRequested,
        ErrView::Unknown(t) => e matches CliError::UnknownArgument(s) && s@ == t,
        ErrView::MissingValue(f) => e == CliError::MissingValue(f),
        ErrView::Duplicate(f) => e == CliError::DuplicateArgument(f),
        ErrView::Invalid(f, t) => e matches CliError::InvalidValue(g, s) && g == f && s@ == t,
        ErrView::Unexpected(t) => e matches CliError::UnexpectedArgument(s) && s@ == t,
    }
}

proof fn lemma_first_eq_from(t: Seq<char>, j: int)
    ensures
        first_eq_from(t, j) matches Some(e) ==> j <= e < t.len() && t[e] == '=',
    decreases t.len() - j,
{
    if 0 <= j < t.len() && t[j] != '=' {
        lemma_first_eq_from(t, j + 1);
    }
}

fn find_eq(t: &str) -> (r: Option<usize>)
    ensures
        match first_eq(t@) {
            Some(e) => r == Some(e as usize),
            None => r is None,
        },
{
    let n = t.unicode_len();
    let mut j: usize = 0;
    while j < n
        invariant
            n == t@.len(),
            j <= n,
            first_eq(t@) == first_eq_from(t@, j as int),
        decreases n - j,
    {
        if t.get_char(j) == '=' {
            return Some(j);
        }
        j = j + 1;
    }
    None
}

fn starts_with_dash(t: &str) -> (r: bool)
    ensures
        r == (t@.len() > 0 && t@[0] == '-'),
{
    t.unicode_len() > 0 && t.get_char(0) == '-'
}

fn flag_for(sub: Subcommand, name: &str) -> (r: Option<Flag>)
    ensures
        r == flag_named(sub, name@),
{
    proof {
        reveal_strlit("url");
        reveal_strlit("auth-token");
        reveal_strlit("polling-interval");
        reveal_strlit("output");
    }
    if str_eq(name, "url") {
        Some(Flag::Url)
    } else if str_eq(name, "auth-token") && sub != Subcommand::Thumbnail {
        Some(Flag::AuthToken)
    } else if str_eq(name, "polling-interval") && sub == Subcommand::Watch {
        Some(Flag::PollingInterval)
    } else if str_eq(name, "output") && sub == Subcommand::Thumbnail {
        Some(Flag::Output)
    } else {
        None
    }
}

fn has(p: &ParsedArgs, f: Flag) -> (r: bool)
    ensures
        r == has_flag(parsed_view(*p), f),
{
    match f {
        Flag::Url => p.url.is_some(),
        Flag::AuthToken => p.auth_token.is_some(),
        Flag::PollingInterval => p.polling_interval.is_some(),
        Flag::Output => p.output.is_some(),
    }
}

fn set(p: ParsedArgs, f: Flag, v: &str) -> (r: Result<ParsedArgs, CliError>)
    ensures
        match set_flag(parsed_view(p), f, v@) {
            Ok(q) => r matches Ok(pr) && parsed_view(pr) == q,
            Err(e) => r matches Err(er) && err_matches(er, e),
        },
{
    match f {
        Flag::Url => Ok(ParsedArgs { url: Some(String::from_str(v)), ..p }),
        Flag::AuthToken => Ok(ParsedArgs { auth_token: Some(String::from_str(v)), ..p }),
        Flag::PollingInterval => match parse_u64(v) {
            Some(n) => Ok(ParsedArgs { polling_interval: Some(n), ..p }),
            None => Err(CliError::InvalidValue(f, String::from_str(v))),
        },
        Flag::Output => Ok(ParsedArgs { output: Some(String::from_str(v)), ..p }),
    }
}

fn exec_step(sub: Subcommand, args: &Vec<String>, i: usize, p: ParsedArgs) -> (r: Result<(ParsedArgs, usize), CliError>)
    requires
        i < args@.len(),
    ensures
        match step(sub, strings_view(args@), i as int, parsed_view(p)) {
            Ok((q, j)) => r matches Ok((pr, jr)) && parsed_view(pr) == q && jr == j,
            Err(e) => r matches Err(er) && err_matches(er, e),
        },
{
    let ghost av = strings_view(args@);
    let alen = args.len();
    assert(av[i as int] == args@[i as int]@);
    let t = args[i].as_str();
    proof {
        reveal_strlit("-h");
        reveal_strlit("--help");
    }
    if str_eq(t, "-h") || str_eq(t, "--help") {
        return Err(CliError::HelpRequested);
    }
    let n = t.unicode_len();
    let long = n > 2 && t.get_char(0) == '-' && t.get_char(1) == '-';
    if long {
        let eq = find_eq(t);
        let name_end: usize = match eq {
            Some(e) => e,
            None => n,
        };
        proof {
            lemma_first_eq_from(t@, 0);
        }
        let name = t.substring_char(2, name_end);
        match flag_for(sub, name) {
            None => Err(CliError::UnknownArgument(String::from_str(t))),
            Some(f) => {
                if has(&p, f) {
                    return Err(CliError::DuplicateArgument(f));
                }
                match eq {
                    Some(e) => {
                        let v = t.substring_char(e + 1, n);
                        match set(p, f, v) {
                            Ok(q) => Ok((q, i + 1)),
                            Err(er) => Err(er),
                        }
                    },
                    None => {
                        if i + 1 < args.len() && !starts_with_dash(args[i + 1].as_str()) {
                            assert(av[i + 1] == args@[i + 1]@);
                            match set(p, f, args[i + 1].as_str()) {
                                Ok(q) => Ok((q, i + 2)),
                                Err(er) => Err(er),
                            }
                        } else {
                            proof {
                                if i + 1 < args@.len() {
                                    assert(av[i + 1] == args@[i + 1]@);
                                }
                            }
                            Err(CliError::MissingValue(f))
                        }
                    },
                }
            },
        }
    } else if n >= 2 && t.get_char(0) == '-' {
        Err(CliError::UnknownArgument(String::from_str(t)))
    } else if p.key.is_none() {
        Ok((ParsedArgs { key: Some(String::from_str(t)), ..p }, i + 1))
    } else {
        Err(CliError::UnexpectedArgument(String::from_str(t)))
    }
}

} // verus!

verus! {

/// A parsed command line as plain values.
pub enum CommandView {
    Status { key: Seq<char>, url: Seq<char>, auth_token: Option<Seq<char>> },
    Watch { key: Seq<char>, url: Seq<char>, auth_token: Option<Seq<char>>, polling_interval: Option<u64> },
    Thumbnail { key: Seq<char>, url: Seq<char>, output: Seq<char> },
}

/// A refusal of a command line as plain values.
pub enum RefusalView {
    Scan(ErrView),
    MissingSubcommand,
    UnknownSubcommand(Seq<char>),
    Missing(Required),
}

/// The first of two optional values that is given.
pub open spec fn or_else(a: Option<Seq<char>>, b: Option<Seq<char>>) -> Option<Seq<char>> {
    match a {
        Some(v) => Some(v),
        None => b,
    }
}

/// What the arguments `args` (the program's name first) ask for, with
/// `env_url` and `env_auth` standing in for `--url` and `--auth-token` when
/// they are not given. `-h`, `--help` or `help` in place of the subcommand
/// ask for help. Once the arguments are read, a missing key, URL or (for
/// `thumbnail`) output is refused, in that order.
pub open spec fn cli_outcome(args: Seq<Seq<char>>, env_url: Option<Seq<char>>, env_auth: Option<Seq<char>>) -> Result<
    CommandView,
    RefusalView,
> {
    if args.len() < 2 {
        Err(RefusalView::MissingSubcommand)
    } else if args[1] == "-h"@ || args[1] == "--help"@ || args[1] == "help"@ {
        Err(RefusalView::Scan(ErrView::Help))
    } else {
        match subcommand_named(args[1]) {
            None => Err(RefusalView::UnknownSubcommand(args[1])),
            Some(sub) => {
                let empty = Parsed { key: None, url: None, auth_token: None, polling_interval: None, output: None };
                match scan(sub, args, 2, empty) {
                    Err(e) => Err(RefusalView::Scan(e)),
                    Ok(p) => {
                        let url = or_else(p.url, env_url);
                        if p.key is None {
                            Err(RefusalView::Missing(Required::Key))
                        } else if url is None {
                            Err(RefusalView::Missing(Required::Url))
                        } else {
                            let key = p.key->0;
                            let url = url->0;
                            match sub {
                                Subcommand::Status => Ok(
                                    CommandView::Status { key, url, auth_token: or_else(p.auth_token, env_auth) },
                                ),
                                Subcommand::Watch => Ok(
                                    CommandView::Watch {
                                        key,
                                        url,
                                        auth_token: or_else(p.auth_token, env_auth),
                                        polling_interval: p.polling_interval,
                                    },
                                ),
                                Subcommand::Thumbnail => match p.output {
                                    Some(output) => Ok(CommandView::Thumbnail { key, url, output }),
                                    None => Err(RefusalView::Missing(Required::Output)),
                                },
                            }
                        }
                    },
                }
            },
        }
    }
}

/// A parsed command line has the values of its view.
pub open spec fn command_matches(c: Commands, v: CommandView) -> bool {
    match (c, v) {
        (Commands::Status { key, url, auth_token }, CommandView::Status { key: k, url: u, auth_token: a }) => key@
            == k && url@ == u && opt_view(auth_token) == a,
        (
            Commands::Watch { key, url, auth_token, polling_interval },
            CommandView::Watch { key: k, url: u, auth_token: a, polling_interval: p },
        ) => key@ == k && url@ == u && opt_view(auth_token) == a && polling_interval == p,
        (Commands::Thumbnail { key, url, output }, CommandView::Thumbnail { key: k, url: u, output: o }) => key@ == k
            && url@ == u && output@ == o,
        _ => false,
    }
}

/// A refusal stands for its view.
pub open spec fn refusal_matches(e: CliError, v: RefusalView) -> bool {
    match v {
        RefusalView::Scan(s) => err_matches(e, s),
        RefusalView::MissingSubcommand => e == CliError::MissingSubcommand,
        RefusalView::UnknownSubcommand(t) => e matches CliError::UnknownSubcommand(s) && s@ == t,
        RefusalView::Missing(r) => e == CliError::MissingRequired(r),
    }
}

fn copy_opt(o: &Option<String>) -> (r: Option<String>)
    ensures
        r == *o,
{
    match o {
        Some(s) => Some(s.clone()),
        None => None,
    }
}

/// Reads a command line; `args` holds the program's name first.
pub fn parse_args(args: &Vec<String>, env: CliEnv) -> (r: Result<Cli, CliError>)
    ensures
        match cli_outcome(strings_view(args@), opt_view(env.url), opt_view(env.auth_token)) {
            Ok(v) => r matches Ok(c) && command_matches(c.command, v),
            Err(v) => r matches Err(e) && refusal_matches(e, v),
        },
{
    let ghost av = strings_view(args@);
    proof {
        reveal_strlit("-h");
        reveal_strlit("--help");
        reveal_strlit("help");
        reveal_strlit("status");
        reveal_strlit("watch");
        reveal_strlit("thumbnail");
    }
    if args.len() < 2 {
        return Err(CliError::MissingSubcommand);
    }
    assert(av[1] == args@[1]@);
    let first = args[1].as_str();
    if str_eq(first, "-h") || str_eq(first, "--help") || str_eq(first, "help") {
        return Err(CliError::HelpRequested);
    }
    let sub = if str_eq(first, "status") {
        Subcommand::Status
    } else if str_eq(first, "watch") {
        Subcommand::Watch
    } else if str_eq(first, "thumbnail") {
        Subcommand::Thumbnail
    } else {
        return Err(CliError::UnknownSubcommand(String::from_str(first)));
    };
    assert(subcommand_named(av[1]) == Some(sub));
    let ghost empty = Parsed { key: None, url: None, auth_token: None, polling_interval: None, output: None };
    let mut p = ParsedArgs { key: None, url: None, auth_token: None, polling_interval: None, output: None };
    assert(parsed_view(p) == empty);
    let mut i: usize = 2;
    while i < args.len()
        invariant
            2 <= i <= args@.len(),
            av == strings_view(args@),
            subcommand_named(av[1]) == Some(sub),
            !(av[1] == "-h"@ || av[1] == "--help"@ || av[1] == "help"@),
            empty == (Parsed { key: None, url: None, auth_token: None, polling_interval: None, output: None }),
            scan(sub, av, 2, empty) == scan(sub, av, i as int, parsed_view(p)),
        decreases args@.len() - i,
    {
        match exec_step(sub, args, i, p) {
            Ok((q, j)) => {
                proof {
                    lemma_step_advances(sub, av, i as int, parsed_view(p));
                }
                p = q;
                i = j;
            },
            Err(e) => {
                proof {
                    lemma_step_advances(sub, av, i as int, parsed_view(p));
                }
                return Err(e);
            },
        }
    }
    assert(scan(sub, av, i as int, parsed_view(p)) == Ok::<Parsed, ErrView>(parsed_view(p)));
    let url = match &p.url {
        Some(u) => Some(u.clone()),
        None => copy_opt(&env.url),
    };
    let key = match p.key {
        Some(k) => k,
        None => return Err(CliError::MissingRequired(Required::Key)),
    };
    let url = match url {
        Some(u) => u,
        None => return Err(CliError::MissingRequired(Required::Url)),
    };
    let auth_token = match p.auth_token {
        Some(a) => Some(a),
        None => env.auth_token,
    };
    let command = match sub {
        Subcommand::Status => Commands::Status { key, url, auth_token },
        Subcommand::Watch => Commands::Watch { key, url, auth_token, polling_interval: p.polling_interval },
        Subcommand::Thumbnail => match p.output {
            Some(output) => Commands::Thumbnail { key, url, output },
            None => return Err(CliError::MissingRequired(Required::Output)),
        },
    };
    Ok(Cli { command })
}

proof fn lemma_step_advances(sub: Subcommand, args: Seq<Seq<char>>, i: int, p: Parsed)
    requires
        0 <= i < args.len(),
    ensures
        step(sub, args, i, p) matches Ok((q, j)) ==> i < j <= args.len() && scan(sub, args, i, p) == scan(
            sub,
            args,
            j,
            q,
        ),
        step(sub, args, i, p) matches Err(e) ==> scan(sub, args, i, p) == Err::<Parsed, ErrView>(e),
{
}

/// Whether `watch` prints a newly seen status: always for the first, and
/// afterwards unless the stream stays offline (an online stream is printed
/// again with its fresh details).
pub open spec fn status_shown(previous: Option<StreamStatus>, current: StreamStatus) -> bool {
    !(previous == Some(StreamStatus::Offline) && current == StreamStatus::Offline)
}

/// Whether `watch` prints `current` after `previous`.
pub fn status_changed(previous: Option<&StreamStatus>, current: &StreamStatus) -> (r: bool)
    ensures
        r == status_shown(
            match previous {
                Some(s) => Some(*s),
                None => None,
            },
            *current,
        ),
{
    match (previous, current) {
        (None, _) => true,
        (Some(StreamStatus::Online(_)), StreamStatus::Online(_)) => true,
        (Some(StreamStatus::Online(_)), StreamStatus::Offline) => true,
        (Some(StreamStatus::Offline), StreamStatus::Online(_)) => true,
        _ => false,
    }
}

/// No `=` at or after `j` means none is found from there.
proof fn lemma_no_eq_from(t: Seq<char>, j: int)
    requires
        0 <= j,
        forall|k: int| j <= k < t.len() ==> t[k] != '=',
    ensures
        first_eq_from(t, j) is None,
    decreases t.len() - j,
{
    if j < t.len() {
        lemma_no_eq_from(t, j + 1);
    }
}

/// `--auth-token` is read as the auth token option, with its value to
/// follow.
proof fn lemma_auth_token_option(sub: Subcommand)
    requires
        sub != Subcommand::Thumbnail,
    ensures
        is_long("--auth-token"@),
        "--auth-token"@.len() > 2,
        "--auth-token"@ != "-h"@,
        "--auth-token"@ != "--help"@,
        long_name("--auth-token"@) == "auth-token"@,
        inline_value("--auth-token"@) is None,
        flag_named(sub, "auth-token"@) == Some(Flag::AuthToken),
        "--auth-token"@[0] == '-',
{
    reveal_strlit("--auth-token");
    reveal_strlit("auth-token");
    reveal_strlit("url");
    reveal_strlit("-h");
    reveal_strlit("--help");
    let t = "--auth-token"@;
    lemma_no_eq_from(t, 0);
    assert(t.subrange(2, t.len() as int) =~= "auth-token"@);
    assert(t.len() != "-h"@.len());
    assert(t.len() != "--help"@.len());
    assert("auth-token"@.len() != "url"@.len());
}

/// Reading on never changes an auth token already read.
proof fn lemma_scan_keeps_auth(sub: Subcommand, args: Seq<Seq<char>>, i: int, p: Parsed)
    requires
        p.auth_token is Some,
    ensures
        scan(sub, args, i, p) matches Ok(q) ==> q.auth_token == p.auth_token,
    decreases args.len() - i,
{
    if 0 <= i < args.len() {
        if let Ok((q, j)) = step(sub, args, i, p) {
            assert(q.auth_token == p.auth_token);
            if j > i {
                lemma_scan_keeps_auth(sub, args, j, q);
            }
        }
    }
}

/// Reading on from a position at or before an `--auth-token t` option
/// ends, when it succeeds, with `t` as the token: no option before it can
/// take it as its value, as it starts with `-`.
proof fn lemma_scan_reads_auth(sub: Subcommand, args: Seq<Seq<char>>, i: int, p: Parsed, k: int, t: Seq<char>)
    requires
        0 <= i <= k,
        k + 1 < args.len(),
        args[k] == "--auth-token"@,
        args[k + 1] == t,
        sub != Subcommand::Thumbnail,
    ensures
        scan(sub, args, i, p) matches Ok(q) ==> q.auth_token == Some(t),
    decreases args.len() - i,
{
    lemma_auth_token_option(sub);
    if let Ok((q, j)) = step(sub, args, i, p) {
        if i == k {
            assert(q.auth_token == Some(t) && j == k + 2);
            lemma_scan_keeps_auth(sub, args, j, q);
        } else {
            assert(i < j <= k);
            lemma_scan_reads_auth(sub, args, j, q, k, t);
        }
    }
}

/// Reading on over arguments none of which is an auth token option keeps
/// the token as it is.
proof fn lemma_scan_without_auth(sub: Subcommand, args: Seq<Seq<char>>, i: int, p: Parsed)
    requires
        0 <= i,
        forall|j: int|
            i <= j < args.len() ==> !(is_long(#[trigger] args[j]) && args[j].len() > 2 && long_name(args[j])
                == "auth-token"@),
    ensures
        scan(sub, args, i, p) matches Ok(q) ==> q.auth_token == p.auth_token,
    decreases args.len() - i,
{
    reveal_strlit("auth-token");
    reveal_strlit("url");
    reveal_strlit("polling-interval");
    reveal_strlit("output");
    if i < args.len() {
        assert(!(is_long(args[i]) && args[i].len() > 2 && long_name(args[i]) == "auth-token"@));
        if let Ok((q, j)) = step(sub, args, i, p) {
            assert(q.auth_token == p.auth_token);
            if j > i {
                lemma_scan_without_auth(sub, args, j, q);
            }
        }
    }
}

/// For `status` and `watch`, an `--auth-token t` option gives `t` as the
/// token: it is neither dropped nor replaced by the environment's.
pub proof fn law_auth_token_option_is_kept(
    args: Seq<Seq<char>>,
    env_url: Option<Seq<char>>,
    env_auth: Option<Seq<char>>,
    k: int,
    t: Seq<char>,
)
    requires
        2 <= k,
        k + 1 < args.len(),
        args[k] == "--auth-token"@,
        args[k + 1] == t,
    ensures
        cli_outcome(args, env_url, env_auth) matches Ok(CommandView::Watch { auth_token, .. }) ==> auth_token == Some(
            t,
        ),
        cli_outcome(args, env_url, env_auth) matches Ok(CommandView::Status { auth_token, .. }) ==> auth_token
            == Some(t),
{
    if args.len() >= 2 {
        if let Some(sub) = subcommand_named(args[1]) {
            if sub != Subcommand::Thumbnail {
                let empty = Parsed { key: None, url: None, auth_token: None, polling_interval: None, output: None };
                lemma_scan_reads_auth(sub, args, 2, empty, k, t);
            }
        }
    }
}

/// For `status` and `watch` without an auth token option, the token is
/// the one the environment gives (`BROADCAST_BOX_AUTH_TOKEN`), if any.
pub proof fn law_auth_token_falls_back_to_environment(
    args: Seq<Seq<char>>,
    env_url: Option<Seq<char>>,
    env_auth: Option<Seq<char>>,
)
    requires
        forall|j: int|
            2 <= j < args.len() ==> !(is_long(#[trigger] args[j]) && args[j].len() > 2 && long_name(args[j])
                == "auth-token"@),
    ensures
        cli_outcome(args, env_url, env_auth) matches Ok(CommandView::Watch { auth_token, .. }) ==> auth_token
            == env_auth,
        cli_outcome(args, env_url, env_auth) matches Ok(CommandView::Status { auth_token, .. }) ==> auth_token
            == env_auth,
{
    if args.len() >= 2 {
        if let Some(sub) = subcommand_named(args[1]) {
            let empty = Parsed { key: None, url: None, auth_token: None, polling_interval: None, output: None };
            lemma_scan_without_auth(sub, args, 2, empty);
        }
    }
}

} // verus!
