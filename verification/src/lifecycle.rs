//! Starting and stopping: how the host launches the daemon and learns its
//! port, how the daemon watches its parent, and which origins it admits.

use crate::files::{parse_u64, parsed_u64};
use crate::text::{
    concat, concat3, decimal, decimal_string, from_chars, texts, to_chars, trim, trimmed,
};
use vstd::prelude::*;

verus! {

/// Seconds between two looks at the parent process.
pub const PARENT_POLL_SECS: u64 = 1;

/// Seconds the link handler waits for a host to come up.
pub const HOST_WAIT_SECS: u64 = 10;

/// Milliseconds between two looks for a host.
pub const HOST_POLL_MILLIS: u64 = 200;

/// Seconds a browser may cache the answer to a preflight request.
pub const CORS_MAX_AGE_SECS: u64 = 86400;

/// What a look at the parent process found.
#[derive(Clone, Copy, Debug, PartialEq, Eq, Structural)]
pub enum ParentProbe {
    /// The parent runs.
    Running,
    /// The parent is gone.
    Gone,
    /// The look itself failed.
    Unknown,
}

/// What the daemon does after a look at its parent: it goes on while the
/// parent runs, exits with 0 once the parent is gone, and with 1 where it
/// cannot tell.
pub fn parent_verdict(probe: ParentProbe) -> (exit: Option<i32>)
    ensures
        exit == (match probe {
            ParentProbe::Running => None::<i32>,
            ParentProbe::Gone => Some(0i32),
            ParentProbe::Unknown => Some(1i32),
        }),
{
    match probe {
        ParentProbe::Running => None,
        ParentProbe::Gone => Some(0),
        ParentProbe::Unknown => Some(1),
    }
}

/// Calls `Uuid::new_v4` of `uuid` and formats the result, which gives a
/// random identifier in the hyphenated form of 36 characters.
#[verifier::external_body]
pub(crate) fn fresh_token() -> (token: String)
    ensures
        token@.len() == 36,
{
    uuid::Uuid::new_v4().to_string()
}

/// A fresh token for a server of the host: a random identifier of 36
/// characters.
pub fn new_token() -> (token: String)
    ensures
        token@.len() == 36,
{
    fresh_token()
}

/// The arguments the daemon is started with: an ephemeral port, the token,
/// the pid of the host to watch, and the install id.
pub open spec fn daemon_arguments(token: Seq<char>, parent_pid: u32, install_id: Seq<char>) -> Seq<
    Seq<char>,
> {
    seq![
        "--port"@,
        "0"@,
        "--token"@,
        token,
        "--parent-pid"@,
        decimal(parent_pid as nat),
        "--install-id"@,
        install_id,
    ]
}

/// Builds the arguments the daemon is started with.
pub fn daemon_args(token: &str, parent_pid: u32, install_id: &str) -> (args: Vec<String>)
    ensures
        texts(args@) == daemon_arguments(token@, parent_pid, install_id@),
{
    let mut args: Vec<String> = Vec::new();
    args.push("--port".to_owned());
    args.push("0".to_owned());
    args.push("--token".to_owned());
    args.push(token.to_owned());
    args.push("--parent-pid".to_owned());
    args.push(decimal_string(parent_pid as u64));
    args.push("--install-id".to_owned());
    args.push(install_id.to_owned());
    assert(texts(args@) =~= daemon_arguments(token@, parent_pid, install_id@));
    args
}

/// What is needed to start a daemon: a fresh token and the arguments that
/// carry it.
#[derive(Clone, Debug, PartialEq, Eq)]
pub struct DaemonLaunch {
    pub token: String,
    pub args: Vec<String>,
}

/// Plans the start of a daemon for the install `install_id`, watched by
/// the process `parent_pid`. The token is drawn at random.
pub fn plan_launch(parent_pid: u32, install_id: &str) -> (launch: DaemonLaunch)
    ensures
        launch.token@.len() == 36,
        texts(launch.args@) == daemon_arguments(launch.token@, parent_pid, install_id@),
{
    let token = new_token();
    let args = daemon_args(token.as_str(), parent_pid, install_id);
    DaemonLaunch { token, args }
}

/// The port that decimal text denotes, if it is one.
pub open spec fn port_of(text: Seq<char>) -> Option<u16> {
    match parsed_u64(text) {
        Some(n) => if n <= u16::MAX {
            Some(n as u16)
        } else {
            None
        },
        None => None,
    }
}

/// Reads a port from decimal text.
pub fn parse_port(text: &str) -> (port: Option<u16>)
    ensures
        port == port_of(text@),
{
    match parse_u64(text) {
        Some(n) => if n <= u16::MAX as u64 {
            Some(n as u16)
        } else {
            None
        },
        None => None,
    }
}

/// Reads the port that the daemon announces on its first line of output.
pub fn announced_port(line: &str) -> (port: Option<u16>)
    ensures
        port == port_of(trimmed(line@)),
{
    let text = trim(line);
    parse_port(text.as_str())
}

/// The line by which the daemon announces its port.
pub fn announce_line(port: u16) -> (line: String)
    ensures
        line@ == decimal(port as nat),
{
    decimal_string(port as u64)
}

/// The address of the reload endpoint of a daemon on `port`.
pub fn refresh_url(port: u16) -> (url: String)
    ensures
        url@ == "http://127.0.0.1:"@ + decimal(port as nat) + "/api/read-rpc-info-from-disk"@,
{
    concat3(
        "http://127.0.0.1:",
        decimal_string(port as u64).as_str(),
        "/api/read-rpc-info-from-disk",
    )
}

/// The value of the `Authorization` header that carries `token`.
pub fn bearer(token: &str) -> (value: String)
    ensures
        value@ == "Bearer "@ + token@,
{
    concat("Bearer ", token)
}

/// The parts of `text` between the separators `sep`.
pub open spec fn split(text: Seq<char>, sep: char) -> Seq<Seq<char>>
    decreases text.len(),
{
    if text.len() == 0 {
        seq![text]
    } else if text.last() == sep {
        split(text.drop_last(), sep).push(Seq::empty())
    } else {
        let before = split(text.drop_last(), sep);
        before.drop_last().push(before.last().push(text.last()))
    }
}

/// Splitting always yields at least one part.
pub proof fn lemma_split_nonempty(text: Seq<char>, sep: char)
    ensures
        split(text, sep).len() >= 1,
    decreases text.len(),
{
    if text.len() > 0 {
        lemma_split_nonempty(text.drop_last(), sep);
    }
}

/// Splits `text` at every `sep`.
pub fn split_at(text: &[char], sep: char) -> (parts: Vec<Vec<char>>)
    ensures
        parts@.map_values(|p: Vec<char>| p@) == split(text@, sep),
{
    let mut parts: Vec<Vec<char>> = Vec::new();
    let mut current: Vec<char> = Vec::new();
    let mut i: usize = 0;
    assert(text@.take(0) =~= Seq::<char>::empty());
    assert(parts@.map_values(|p: Vec<char>| p@).push(current@) =~= split(text@.take(0), sep));
    while i < text.len()
        invariant
            i <= text@.len(),
            parts@.map_values(|p: Vec<char>| p@).push(current@) == split(
                text@.take(i as int),
                sep,
            ),
        decreases text@.len() - i,
    {
        let c = text[i];
        let ghost done = parts@.map_values(|p: Vec<char>| p@);
        let ghost cur = current@;
        proof {
            assert(text@.take(i + 1).drop_last() =~= text@.take(i as int));
            assert(text@.take(i + 1).last() == c);
            assert(done.push(cur).drop_last() =~= done);
            assert(done.push(cur).last() == cur);
        }
        if c == sep {
            parts.push(current);
            current = Vec::new();
            assert(parts@.map_values(|p: Vec<char>| p@) =~= done.push(cur));
            assert(current@ =~= Seq::<char>::empty());
        } else {
            current.push(c);
        }
        i += 1;
    }
    assert(text@.take(text@.len() as int) =~= text@);
    let ghost done = parts@.map_values(|p: Vec<char>| p@);
    let ghost cur = current@;
    parts.push(current);
    assert(parts@.map_values(|p: Vec<char>| p@) =~= done.push(cur));
    parts
}

/// The origin of the extension `extension_id`.
pub open spec fn extension_origin(extension_id: Seq<char>) -> Seq<char> {
    "chrome-extension://"@ + extension_id
}

/// The trimmed, non-empty members of a list of parts, in order.
pub open spec fn named_origins(parts: Seq<Seq<char>>) -> Seq<Seq<char>>
    decreases parts.len(),
{
    if parts.len() == 0 {
        Seq::empty()
    } else {
        let before = named_origins(parts.drop_last());
        if trimmed(parts.last()).len() == 0 {
            before
        } else {
            before.push(trimmed(parts.last()))
        }
    }
}

/// The origins the daemon admits: that of the extension, where its id is
/// known, then the comma-separated development origins, each trimmed,
/// empty ones left out. An empty list admits every origin.
pub open spec fn admitted_origins(
    extension_id: Option<Seq<char>>,
    dev_origins: Option<Seq<char>>,
) -> Seq<Seq<char>> {
    let first: Seq<Seq<char>> = match extension_id {
        Some(id) => seq![extension_origin(id)],
        None => Seq::empty(),
    };
    let rest: Seq<Seq<char>> = match dev_origins {
        Some(list) => named_origins(split(list, ',')),
        None => Seq::empty(),
    };
    first + rest
}

/// Lists the origins the daemon admits.
pub fn allowed_origins(extension_id: &Option<String>, dev_origins: &Option<String>) -> (origins:
    Vec<String>)
    ensures
        texts(origins@) == admitted_origins(
            crate::config::text_view(*extension_id),
            crate::config::text_view(*dev_origins),
        ),
{
    let mut origins: Vec<String> = Vec::new();
    match extension_id {
        Some(id) => {
            origins.push(concat("chrome-extension://", id.as_str()));
        },
        None => {},
    }
    let ghost first = texts(origins@);
    assert(first =~= (match crate::config::text_view(*extension_id) {
        Some(id) => seq![extension_origin(id)],
        None => Seq::<Seq<char>>::empty(),
    }));
    match dev_origins {
        Some(list) => {
            let chars = to_chars(list.as_str());
            let parts = split_at(chars.as_slice(), ',');
            let ghost all = parts@.map_values(|p: Vec<char>| p@);
            let mut i: usize = 0;
            assert(all.take(0) =~= Seq::<Seq<char>>::empty());
            assert(texts(origins@) =~= first + named_origins(all.take(0)));
            while i < parts.len()
                invariant
                    all == parts@.map_values(|p: Vec<char>| p@),
                    i <= parts@.len(),
                    texts(origins@) == first + named_origins(all.take(i as int)),
                decreases parts@.len() - i,
            {
                let part = from_chars(parts[i].as_slice());
                let name = trim(part.as_str());
                proof {
                    assert(all.take(i + 1).drop_last() =~= all.take(i as int));
                    assert(all.take(i + 1).last() == parts@[i as int]@);
                }
                if name.as_str().unicode_len() > 0 {
                    let ghost before = origins@;
                    origins.push(name);
                    assert(texts(origins@) =~= texts(before).push(name@));
                    assert(texts(origins@) =~= first + named_origins(all.take(i + 1)));
                }
                i += 1;
            }
            assert(all.take(parts@.len() as int) =~= all);
        },
        None => {
            assert(texts(origins@) =~= first + Seq::<Seq<char>>::empty());
        },
    }
    origins
}

} // verus!
