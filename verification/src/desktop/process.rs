//! Command lines for the desktop's processes: running as the desktop user
//! with an environment, stopping what a session left behind, ownership.
use vstd::prelude::*;
use crate::lines::{split_at_char, split_spec, texts};
use crate::paths::{join_spec, path_join};
use crate::paths::{DESKTOP_GID, DESKTOP_UID};
use crate::table::pair_texts;
use crate::text::{nat_text, owned, parse_u64, parse_u64_spec, push_str, str_eq, trim, trim_spec, u32_text};

verus! {

/// `KEY=VALUE` for each pair of an environment, in order.
pub open spec fn env_args_spec(env: Seq<(Seq<char>, Seq<char>)>) -> Seq<Seq<char>> {
    env.map_values(|e: (Seq<char>, Seq<char>)| e.0 + "="@ + e.1)
}

/// The `KEY=VALUE` arguments that hand an environment to `env`.
pub fn env_args(env: &[(String, String)]) -> (r: Vec<String>)
    ensures
        texts(r@) == env_args_spec(pair_texts(env@)),
{
    let ghost e = pair_texts(env@);
    let mut out: Vec<String> = Vec::new();
    let mut i: usize = 0;
    while i < env.len()
        invariant
            i <= env@.len(),
            e == pair_texts(env@),
            texts(out@) == env_args_spec(e.take(i as int)),
        decreases env@.len() - i,
    {
        let ghost before = texts(out@);
        let mut arg = env[i].0.clone();
        push_str(&mut arg, "=");
        push_str(&mut arg, env[i].1.as_str());
        out.push(arg);
        assert(texts(out@) =~= before.push(arg@));
        assert(env_args_spec(e.take(i + 1)) =~= env_args_spec(e.take(i as int)).push(e[i as int].0 + "="@ + e[i as int].1));
        i = i + 1;
    }
    assert(e.take(i as int) =~= e);
    out
}

/// The command line that runs `command` as the desktop user with exactly
/// the environment `env`: `setpriv` to the desktop user's ids, then `env`.
pub open spec fn desktop_user_argv_spec(command: Seq<Seq<char>>, env: Seq<(Seq<char>, Seq<char>)>) -> Seq<Seq<char>> {
    seq![
        "setpriv"@,
        "--reuid"@,
        nat_text(DESKTOP_UID as nat),
        "--regid"@,
        nat_text(DESKTOP_GID as nat),
        "--init-groups"@,
        "--"@,
        "env"@,
    ] + env_args_spec(env) + command
}

/// Appends copies of the strings.
fn extend_texts(out: &mut Vec<String>, items: &[String])
    ensures
        texts(final(out)@) == texts(old(out)@) + texts(items@),
{
    let ghost start = texts(out@);
    let mut i: usize = 0;
    while i < items.len()
        invariant
            i <= items@.len(),
            texts(out@) == start + texts(items@).take(i as int),
        decreases items@.len() - i,
    {
        let ghost before = texts(out@);
        out.push(items[i].clone());
        assert(texts(out@) =~= before.push(items@[i as int]@));
        assert(texts(items@).take(i + 1) =~= texts(items@).take(i as int).push(items@[i as int]@));
        i = i + 1;
    }
    assert(texts(items@).take(i as int) =~= texts(items@));
}

/// The command line that runs `command` as the desktop user with `env`.
pub fn desktop_user_argv(command: &[String], env: &[(String, String)]) -> (r: Vec<String>)
    ensures
        texts(r@) == desktop_user_argv_spec(texts(command@), pair_texts(env@)),
{
    let mut argv: Vec<String> = Vec::new();
    argv.push(owned("setpriv"));
    argv.push(owned("--reuid"));
    argv.push(u32_text(DESKTOP_UID));
    argv.push(owned("--regid"));
    argv.push(u32_text(DESKTOP_GID));
    argv.push(owned("--init-groups"));
    argv.push(owned("--"));
    argv.push(owned("env"));
    let args = env_args(env);
    extend_texts(&mut argv, &args);
    extend_texts(&mut argv, command);
    assert(texts(argv@) =~= desktop_user_argv_spec(texts(command@), pair_texts(env@)));
    argv
}

/// The command line that runs `command` as the current user with `env`.
pub fn env_argv(command: &[String], env: &[(String, String)]) -> (r: Vec<String>)
    ensures
        texts(r@) == seq!["env"@] + env_args_spec(pair_texts(env@)) + texts(command@),
{
    let mut argv: Vec<String> = Vec::new();
    argv.push(owned("env"));
    let args = env_args(env);
    extend_texts(&mut argv, &args);
    extend_texts(&mut argv, command);
    argv
}

/// The program names of a desktop session, stopped by exact name.
pub open spec fn desktop_process_names() -> Seq<Seq<char>> {
    seq![
        "sunshine"@,
        "xdg-desktop-portal"@,
        "xdg-desktop-portal-kde"@,
        "plasmashell"@,
        "kded6"@,
        "kactivitymanage"@,
        "kactivitymanagerd"@,
        "kwin_wayland"@,
        "Xwayland"@,
        "pipewire-pulse"@,
        "wireplumber"@,
        "pipewire"@,
    ]
}

/// `pkill -TERM -u UID -x NAME`.
pub open spec fn pkill_name(name: Seq<char>) -> Seq<Seq<char>> {
    seq!["pkill"@, "-TERM"@, "-u"@, nat_text(DESKTOP_UID as nat), "-x"@, name]
}

/// The commands that stop what a desktop session left running, in order:
/// the session action service by its command line, each desktop program of
/// the desktop user by name, then the activity manager by its path.
pub open spec fn kill_commands_spec() -> Seq<Seq<Seq<char>>> {
    seq![seq!["pkill"@, "-TERM"@, "-f"@, "/usr/local/bin/arch-sunshine session-actions"@]]
        + desktop_process_names().map_values(|n: Seq<char>| pkill_name(n))
        + seq![seq!["pkill"@, "-TERM"@, "-u"@, nat_text(DESKTOP_UID as nat), "-f"@, "/usr/lib/kactivitymanagerd"@]]
}

/// The command lines as text.
pub open spec fn argv_texts(cmds: Seq<Vec<String>>) -> Seq<Seq<Seq<char>>> {
    cmds.map_values(|c: Vec<String>| texts(c@))
}

/// The `pkill` commands that stop a previous desktop session, in order
/// (after them, exited children are reaped).
pub fn kill_desktop_processes() -> (r: Vec<Vec<String>>)
    ensures
        argv_texts(r@) == kill_commands_spec(),
{
    let mut cmds: Vec<Vec<String>> = Vec::new();
    let mut session_actions: Vec<String> = Vec::new();
    session_actions.push(owned("pkill"));
    session_actions.push(owned("-TERM"));
    session_actions.push(owned("-f"));
    session_actions.push(owned("/usr/local/bin/arch-sunshine session-actions"));
    assert(texts(session_actions@) =~= seq!["pkill"@, "-TERM"@, "-f"@, "/usr/local/bin/arch-sunshine session-actions"@]);
    cmds.push(session_actions);
    let names = [
        "sunshine",
        "xdg-desktop-portal",
        "xdg-desktop-portal-kde",
        "plasmashell",
        "kded6",
        "kactivitymanage",
        "kactivitymanagerd",
        "kwin_wayland",
        "Xwayland",
        "pipewire-pulse",
        "wireplumber",
        "pipewire",
    ];
    let ghost first = argv_texts(cmds@);
    assert(first =~= seq![seq!["pkill"@, "-TERM"@, "-f"@, "/usr/local/bin/arch-sunshine session-actions"@]]);
    let mut i: usize = 0;
    while i < 12
        invariant
            i <= 12,
            names@.map_values(|n: &str| n@) == desktop_process_names(),
            argv_texts(cmds@) == first + desktop_process_names().take(i as int).map_values(
                |n: Seq<char>| pkill_name(n),
            ),
        decreases 12 - i,
    {
        let ghost before = argv_texts(cmds@);
        let name = names[i];
        assert(name@ == desktop_process_names()[i as int]);
        let cmd = vec![
            owned("pkill"),
            owned("-TERM"),
            owned("-u"),
            u32_text(DESKTOP_UID),
            owned("-x"),
            owned(name),
        ];
        assert(texts(cmd@) =~= pkill_name(name@));
        cmds.push(cmd);
        assert(argv_texts(cmds@) =~= before.push(pkill_name(name@)));
        assert(desktop_process_names().take(i + 1).map_values(|n: Seq<char>| pkill_name(n))
            =~= desktop_process_names().take(i as int).map_values(|n: Seq<char>| pkill_name(n)).push(
            pkill_name(name@),
        ));
        i = i + 1;
    }
    let last = vec![
        owned("pkill"),
        owned("-TERM"),
        owned("-u"),
        u32_text(DESKTOP_UID),
        owned("-f"),
        owned("/usr/lib/kactivitymanagerd"),
    ];
    let ghost before = argv_texts(cmds@);
    assert(texts(last@) =~= seq!["pkill"@, "-TERM"@, "-u"@, nat_text(DESKTOP_UID as nat), "-f"@, "/usr/lib/kactivitymanagerd"@]);
    cmds.push(last);
    assert(argv_texts(cmds@) =~= before.push(texts(last@)));
    assert(desktop_process_names().take(12) =~= desktop_process_names());
    assert(argv_texts(cmds@) =~= kill_commands_spec());
    cmds
}

/// The command that gives a path to the desktop user: `chown`, `-R` when
/// recursive, `UID:GID`, the path.
pub fn chown_path(path: &str, recursive: bool) -> (r: Vec<String>)
    ensures
        texts(r@) == seq!["chown"@] + (if recursive {
            seq!["-R"@]
        } else {
            Seq::empty()
        }) + seq![nat_text(DESKTOP_UID as nat) + ":"@ + nat_text(DESKTOP_GID as nat), path@],
{
    let mut args: Vec<String> = Vec::new();
    args.push(owned("chown"));
    if recursive {
        args.push(owned("-R"));
    }
    let mut owner = u32_text(DESKTOP_UID);
    push_str(&mut owner, ":");
    let gid = u32_text(DESKTOP_GID);
    push_str(&mut owner, gid.as_str());
    args.push(owner);
    args.push(owned(path));
    args
}

/// The command that tells whether a process of that exact name runs.
pub fn process_running(name: &str) -> (r: Vec<String>)
    ensures
        texts(r@) == seq!["pgrep"@, "-x"@, name@],
{
    vec![owned("pgrep"), owned("-x"), owned(name)]
}

/// The command that tells whether the desktop user runs a process of that
/// exact name.
pub fn process_name_running(name: &str) -> (r: Vec<String>)
    ensures
        texts(r@) == seq!["pgrep"@, "-u"@, nat_text(DESKTOP_UID as nat), "-x"@, name@],
{
    vec![owned("pgrep"), owned("-u"), u32_text(DESKTOP_UID), owned("-x"), owned(name)]
}

/// A D-Bus `NameHasOwner` reply says yes: its output, trimmed, is `true`.
pub fn name_has_owner_reply(stdout: &str) -> (r: bool)
    ensures
        r == (trim_spec(stdout@) == "true"@),
{
    let t = trim(stdout);
    str_eq(t.as_str(), "true")
}

/// The size at which a log is rotated: the configured number of bytes when
/// it parses and is at least 1 MiB, else 16 MiB.
pub fn max_log_bytes(setting: Option<&str>) -> (r: u64)
    ensures
        r == match setting {
            Some(s) => match parse_u64_spec(s@) {
                Some(v) => if v >= 1048576 {
                    v
                } else {
                    16777216
                },
                None => 16777216,
            },
            None => 16777216,
        },
{
    match setting {
        Some(s) => match parse_u64(s) {
            Some(v) => if v >= 1048576 {
                v
            } else {
                16777216
            },
            None => 16777216,
        },
        None => 16777216,
    }
}

/// Where a command is looked for: each directory of the search path (the
/// `PATH` value split at colons, std's `split_paths` on Unix) joined with
/// the name, in order; nothing without a search path.
pub fn command_candidates(path_var: Option<&str>, name: &str) -> (r: Vec<String>)
    ensures
        texts(r@) == match path_var {
            Some(p) => split_spec(p@, ':').map_values(|d: Seq<char>| join_spec(d, name@)),
            None => Seq::empty(),
        },
{
    let mut out: Vec<String> = Vec::new();
    let p = match path_var {
        Some(p) => p,
        None => {
            return out;
        },
    };
    let dirs = split_at_char(p, ':');
    let ghost ds = texts(dirs@);
    let mut i: usize = 0;
    while i < dirs.len()
        invariant
            i <= dirs@.len(),
            ds == texts(dirs@),
            texts(out@) == ds.take(i as int).map_values(|d: Seq<char>| join_spec(d, name@)),
        decreases dirs@.len() - i,
    {
        let ghost before = texts(out@);
        out.push(path_join(dirs[i].as_str(), name));
        assert(texts(out@) =~= before.push(join_spec(ds[i as int], name@)));
        assert(ds.take(i + 1).map_values(|d: Seq<char>| join_spec(d, name@)) =~= ds.take(i as int).map_values(
            |d: Seq<char>| join_spec(d, name@),
        ).push(join_spec(ds[i as int], name@)));
        i = i + 1;
    }
    assert(ds.take(i as int) =~= ds);
    out
}

} // verus!
