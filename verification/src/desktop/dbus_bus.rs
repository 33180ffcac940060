//! The session and system D-Bus daemons: how they are started and what
//! their replies report.
use vstd::prelude::*;
use crate::lines::{lines_spec, split_lines, texts};
use crate::paths::{join_spec, path_join};
use crate::text::{chars_of, owned, push_str, trim, trim_spec};

verus! {

/// The session bus of a desktop session: its address and the daemon's
/// process id.
pub struct SessionBus {
    pub address: String,
    pub pid: String,
}

/// The lines that are not blank, trimmed.
pub open spec fn nonblank_lines(ls: Seq<Seq<char>>) -> Seq<Seq<char>>
    decreases ls.len(),
{
    if ls.len() == 0 {
        Seq::empty()
    } else {
        let rest = nonblank_lines(ls.drop_last());
        if trim_spec(ls.last()).len() > 0 {
            rest.push(trim_spec(ls.last()))
        } else {
            rest
        }
    }
}

/// The lines of a text that are not blank, trimmed.
pub fn nonblank_trimmed_lines(text: &str) -> (r: Vec<String>)
    ensures
        texts(r@) == nonblank_lines(lines_spec(text@)),
{
    let lines = split_lines(text);
    let ghost ls = texts(lines@);
    let mut out: Vec<String> = Vec::new();
    let mut i: usize = 0;
    while i < lines.len()
        invariant
            i <= lines@.len(),
            ls == texts(lines@),
            ls == lines_spec(text@),
            texts(out@) == nonblank_lines(ls.take(i as int)),
        decreases lines@.len() - i,
    {
        assert(ls.take(i + 1).drop_last() =~= ls.take(i as int));
        let t = trim(lines[i].as_str());
        if chars_of(t.as_str()).len() > 0 {
            let ghost before = texts(out@);
            out.push(t);
            assert(texts(out@) =~= before.push(trim_spec(ls[i as int])));
        }
        i = i + 1;
    }
    assert(ls.take(i as int) =~= ls);
    out
}

/// The session bus socket of a runtime directory.
pub open spec fn bus_socket_spec(runtime_dir: Seq<char>) -> Seq<char> {
    join_spec(runtime_dir, "bus"@)
}

/// The command that starts the session bus on the socket of a runtime
/// directory and reports its address and process id.
pub fn session_bus_argv(runtime_dir: &str) -> (r: Vec<String>)
    ensures
        texts(r@) == seq![
            "dbus-daemon"@,
            "--session"@,
            "--fork"@,
            "--address=unix:path="@ + bus_socket_spec(runtime_dir@),
            "--print-address"@,
            "--print-pid"@,
        ],
{
    let bus = path_join(runtime_dir, "bus");
    let mut address = owned("--address=unix:path=");
    push_str(&mut address, bus.as_str());
    let mut c: Vec<String> = Vec::new();
    c.push(owned("dbus-daemon"));
    c.push(owned("--session"));
    c.push(owned("--fork"));
    c.push(address);
    c.push(owned("--print-address"));
    c.push(owned("--print-pid"));
    assert(texts(c@) =~= seq![
        "dbus-daemon"@,
        "--session"@,
        "--fork"@,
        "--address=unix:path="@ + bus_socket_spec(runtime_dir@),
        "--print-address"@,
        "--print-pid"@,
    ]);
    c
}

/// The session bus from the daemon's output: the first two lines that are
/// not blank are its address and process id; `None` when there are fewer.
pub fn start_session_bus(stdout: &str) -> (r: Option<SessionBus>)
    ensures
        ({
            let ls = nonblank_lines(lines_spec(stdout@));
            match r {
                Some(b) => ls.len() >= 2 && b.address@ == ls[0] && b.pid@ == ls[1],
                None => ls.len() < 2,
            }
        }),
{
    let lines = nonblank_trimmed_lines(stdout);
    if lines.len() < 2 {
        return None;
    }
    Some(SessionBus { address: lines[0].clone(), pid: lines[1].clone() })
}

/// The system bus daemon's process id from its output: its last line that
/// is not blank; `None` when there is none.
pub fn start_system_bus(stdout: &str) -> (r: Option<String>)
    ensures
        ({
            let ls = nonblank_lines(lines_spec(stdout@));
            match r {
                Some(p) => ls.len() > 0 && p@ == ls.last(),
                None => ls.len() == 0,
            }
        }),
{
    let lines = nonblank_trimmed_lines(stdout);
    let n = lines.len();
    if n == 0 {
        return None;
    }
    Some(lines[n - 1].clone())
}

} // verus!
