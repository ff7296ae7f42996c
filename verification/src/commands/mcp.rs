//! `rqmd mcp`: which server is started, and the life of the one in the background.
use vstd::prelude::*;

use crate::cli::{McpAction, McpArgs};
use crate::text::{chars, number};
use crate::text::chars::trim;
use crate::text::number::{decimal_of, parse_unsigned};

verus! {

/// The port of the HTTP server, where none is given.
pub const DEFAULT_HTTP_PORT: u16 = 8181;

/// What `mcp` does.
#[derive(Clone, Copy, Debug, PartialEq, Eq, Structural)]
pub enum McpMode {
    /// Stop the server in the background.
    Stop,
    /// Start an HTTP server in the background.
    Daemon { port: u16 },
    /// Serve HTTP.
    Http { port: u16 },
    /// Serve the standard input and output.
    Stdio,
}

/// The port that the arguments name, or the default one.
pub open spec fn port_of(args: McpArgs) -> u16 {
    match args.port {
        Some(p) => p,
        None => DEFAULT_HTTP_PORT,
    }
}

/// What `mcp` does. To stop is the only action, and goes before starting, and a server in the background always serves
/// HTTP.
pub fn mcp_mode(args: &McpArgs) -> (m: McpMode)
    ensures
        m == if args.action is Some {
            McpMode::Stop
        } else if args.daemon {
            McpMode::Daemon { port: port_of(*args) }
        } else if args.http {
            McpMode::Http { port: port_of(*args) }
        } else {
            McpMode::Stdio
        },
{
    let port: u16 = match args.port {
        Some(p) => p,
        None => DEFAULT_HTTP_PORT,
    };
    match args.action {
        Some(McpAction::Stop) => McpMode::Stop,
        None => if args.daemon {
            McpMode::Daemon { port }
        } else if args.http {
            McpMode::Http { port }
        } else {
            McpMode::Stdio
        },
    }
}

/// The process that a PID file names, given what the file holds; none where there is no file or
/// it holds no number.
pub open spec fn pid_in(file: Option<&str>) -> Option<nat> {
    match file {
        Some(s) => number::parsed(chars::trimmed(s@), u32::MAX as nat),
        None => None,
    }
}

/// The process that a PID file names.
pub fn read_pid(file: Option<&str>) -> (r: Option<u32>)
    ensures
        match r {
            Some(pid) => pid_in(file) == Some(pid as nat),
            None => pid_in(file) is None,
        },
{
    match file {
        Some(s) => match parse_unsigned(trim(s).as_str(), u32::MAX as u64) {
            Some(n) => Some(n as u32),
            None => None,
        },
        None => None,
    }
}

/// What is done before a server is started in the background.
#[derive(Clone, Copy, Debug, PartialEq, Eq, Structural)]
pub enum StartStep {
    /// A server runs already.
    Refuse { pid: u32 },
    /// Remove the PID file of a server that no longer runs, then start.
    CleanAndStart,
    Start,
}

/// What is done before a server is started in the background, given the process that the PID
/// file names and whether it runs.
pub fn start_step(pid: Option<u32>, alive: bool) -> (r: StartStep)
    ensures
        r == match pid {
            Some(pid) => if alive {
                StartStep::Refuse { pid }
            } else {
                StartStep::CleanAndStart
            },
            None => StartStep::Start,
        },
{
    match pid {
        Some(pid) => if alive {
            StartStep::Refuse { pid }
        } else {
            StartStep::CleanAndStart
        },
        None => StartStep::Start,
    }
}

/// What is said where a server runs already.
pub fn already_running_message(pid: u32) -> (s: String)
    ensures
        s@ == "Already running (PID "@ + number::decimal(pid as nat)
            + "). Run 'rqmd mcp stop' first."@,
{
    let mut s: String = "Already running (PID ".to_owned();
    s.append(decimal_of(pid as u128).as_str());
    s.append("). Run 'rqmd mcp stop' first.");
    s
}

/// The arguments with which the program starts itself in the background: the index and the port
/// of this run, serving HTTP.
pub fn daemon_args(index_name: &str, port: u16) -> (r: Vec<String>)
    ensures
        chars::texts(r@) == seq![
            "--index"@,
            index_name@,
            "mcp"@,
            "--http"@,
            "--port"@,
            number::decimal(port as nat),
        ],
{
    let mut r: Vec<String> = Vec::new();
    r.push("--index".to_owned());
    r.push(index_name.to_owned());
    r.push("mcp".to_owned());
    r.push("--http".to_owned());
    r.push("--port".to_owned());
    r.push(decimal_of(port as u128));
    assert(chars::texts(r@) =~= seq![
        "--index"@,
        index_name@,
        "mcp"@,
        "--http"@,
        "--port"@,
        number::decimal(port as nat),
    ]);
    r
}

/// What is said once a server runs in the background.
pub fn started_message(port: u16, pid: u32) -> (s: String)
    ensures
        s@ == "Started on http://localhost:"@ + number::decimal(port as nat) + "/mcp (PID "@
            + number::decimal(pid as nat) + ")\n"@,
{
    let mut s: String = "Started on http://localhost:".to_owned();
    s.append(decimal_of(port as u128).as_str());
    s.append("/mcp (PID ");
    s.append(decimal_of(pid as u128).as_str());
    s.append(")\n");
    s
}

/// How a server in the background is stopped.
#[derive(Clone, Copy, Debug, PartialEq, Eq, Structural)]
pub enum StopStep {
    /// There is none.
    NothingToStop,
    /// End the process, then remove the PID file.
    KillAndClean { pid: u32 },
    /// Remove the PID file of a server that no longer runs.
    Clean,
}

/// How a server in the background is stopped, given the process that the PID file names and
/// whether it runs.
pub fn stop_step(pid: Option<u32>, alive: bool) -> (r: StopStep)
    ensures
        r == match pid {
            Some(pid) => if alive {
                StopStep::KillAndClean { pid }
            } else {
                StopStep::Clean
            },
            None => StopStep::NothingToStop,
        },
{
    match pid {
        Some(pid) => if alive {
            StopStep::KillAndClean { pid }
        } else {
            StopStep::Clean
        },
        None => StopStep::NothingToStop,
    }
}

/// What is said of stopping a server.
pub fn stop_message(step: StopStep) -> (s: String)
    ensures
        s@ == match step {
            StopStep::NothingToStop => "No MCP daemon running (no PID file).\n"@,
            StopStep::KillAndClean { pid } => "Stopped rqmd MCP server (PID "@ + number::decimal(
                pid as nat,
            ) + ").\n"@,
            StopStep::Clean => "Cleaned up stale PID file (server was not running).\n"@,
        },
{
    match step {
        StopStep::NothingToStop => "No MCP daemon running (no PID file).\n".to_owned(),
        StopStep::KillAndClean { pid } => {
            let mut s: String = "Stopped rqmd MCP server (PID ".to_owned();
            s.append(decimal_of(pid as u128).as_str());
            s.append(").\n");
            s
        },
        StopStep::Clean => "Cleaned up stale PID file (server was not running).\n".to_owned(),
    }
}

/// The server that runs in the background, given the process that the PID file names and
/// whether it runs.
pub fn running_daemon_pid(pid: Option<u32>, alive: bool) -> (r: Option<u32>)
    ensures
        r == if alive {
            pid
        } else {
            None
        },
{
    if alive {
        pid
    } else {
        None
    }
}

// Laws.

/// The port that is given counts, and where none is given the default one.
pub proof fn law_given_port_counts(args: McpArgs)
    ensures
        args.port matches Some(p) ==> port_of(args) == p,
        args.port is None ==> port_of(args) == 8181,
{
}

/// A PID file that holds a numeral, with white space before and behind it, names that process.
pub proof fn law_pid_files_name_their_process(
    file: &str,
    before: Seq<char>,
    pid: u32,
    after: Seq<char>,
)
    requires
        file@ == before + number::decimal(pid as nat) + after,
        forall|i: int| 0 <= i < before.len() ==> chars::is_white_space(#[trigger] before[i]),
        forall|i: int| 0 <= i < after.len() ==> chars::is_white_space(#[trigger] after[i]),
    ensures
        pid_in(Some(file)) == Some(pid as nat),
        pid_in(None) is None,
{
    let d = number::decimal(pid as nat);
    number::law_numeral_stands_for_its_number(pid as nat);
    number::law_numerals_read_back(pid as nat, u32::MAX as nat);
    assert forall|i: int| 0 <= i < d.len() implies !chars::is_white_space(#[trigger] d[i]) by {
        assert(number::is_digit(d[i]));
    }
    chars::law_trimming_finds_the_text(before, d, after);
}

} // verus!
