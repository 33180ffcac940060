//! The desktop's file system: the directories it needs, the files a
//! previous session leaves behind, the device nodes it opens to the desktop
//! user, and the rewrites of Plasma's applet configuration.
use vstd::prelude::*;
use crate::lines::{join_spec, join_with, lines_spec, split_lines, texts};
use crate::order::{sort_texts, sorted_texts};
use crate::paths::{
    join_spec as path_join_spec, log_dir, log_dir_spec, path_join, persistent_home_dir,
    sunshine_state_dir, DEFAULT_SOCKET, DISCONNECT_DESKTOP_ID, SUNSHINE_CONFIG_DIR, USER_DATA,
};
use crate::text::{
    chars_of, contains_text, find_first_of, first_of, is_prefix, owned, parse_u64, parse_u64_spec,
    push_str, slice_chars, str_contains, str_eq, str_starts_with, string_of, trim, trim_spec,
};

verus! {

broadcast use vstd::seq_lib::group_to_multiset_ensures;

/// The desktop user's persistent home under the user data mount.
pub open spec fn persistent_home_spec(user: Seq<char>) -> Seq<char> {
    path_join_spec(path_join_spec(USER_DATA@, "home"@), user)
}

/// The directories a desktop session needs, in the order they are made.
pub open spec fn desktop_directories_spec(user: Seq<char>, runtime_dir: Seq<char>) -> Seq<Seq<char>> {
    let phome = persistent_home_spec(user);
    seq![
        USER_DATA@,
        phome,
        log_dir_spec(),
        SUNSHINE_CONFIG_DIR@,
        path_join_spec(path_join_spec(path_join_spec(USER_DATA@, "var"@), "lib"@), "sunshine"@),
        runtime_dir,
        path_join_spec(phome, ".cache"@),
        path_join_spec(phome, ".config"@),
        path_join_spec(path_join_spec(phome, ".local"@), "share"@),
        path_join_spec(phome, "Desktop"@),
        path_join_spec(phome, "Documents"@),
        path_join_spec(phome, "Downloads"@),
        path_join_spec(phome, "Games"@),
        path_join_spec(phome, "Pictures"@),
        path_join_spec(phome, "Videos"@),
    ]
}

/// The directories a desktop session needs, as `desktop_directories_spec`
/// lists them.
pub fn desktop_directories(user: &str, runtime_dir: &str) -> (r: Vec<String>)
    ensures
        texts(r@) == desktop_directories_spec(user@, runtime_dir@),
{
    let phome = persistent_home_dir(user);
    let mut dirs: Vec<String> = Vec::new();
    dirs.push(owned(USER_DATA));
    dirs.push(owned(phome.as_str()));
    dirs.push(log_dir());
    dirs.push(owned(SUNSHINE_CONFIG_DIR));
    dirs.push(sunshine_state_dir());
    dirs.push(owned(runtime_dir));
    dirs.push(path_join(phome.as_str(), ".cache"));
    dirs.push(path_join(phome.as_str(), ".config"));
    let local = path_join(phome.as_str(), ".local");
    dirs.push(path_join(local.as_str(), "share"));
    dirs.push(path_join(phome.as_str(), "Desktop"));
    dirs.push(path_join(phome.as_str(), "Documents"));
    dirs.push(path_join(phome.as_str(), "Downloads"));
    dirs.push(path_join(phome.as_str(), "Games"));
    dirs.push(path_join(phome.as_str(), "Pictures"));
    dirs.push(path_join(phome.as_str(), "Videos"));
    assert(texts(dirs@) =~= desktop_directories_spec(user@, runtime_dir@));
    dirs
}

/// The files of a previous session in the runtime directory: the Wayland
/// socket, its lock, and the session bus socket.
pub fn stale_session_files(runtime_dir: &str) -> (r: Vec<String>)
    ensures
        texts(r@) == seq![
            path_join_spec(runtime_dir@, DEFAULT_SOCKET@),
            path_join_spec(runtime_dir@, DEFAULT_SOCKET@ + ".lock"@),
            path_join_spec(runtime_dir@, "bus"@),
        ],
{
    let mut lock = owned(DEFAULT_SOCKET);
    push_str(&mut lock, ".lock");
    let mut files: Vec<String> = Vec::new();
    files.push(path_join(runtime_dir, DEFAULT_SOCKET));
    files.push(path_join(runtime_dir, lock.as_str()));
    files.push(path_join(runtime_dir, "bus"));
    assert(texts(files@) =~= seq![
        path_join_spec(runtime_dir@, DEFAULT_SOCKET@),
        path_join_spec(runtime_dir@, DEFAULT_SOCKET@ + ".lock"@),
        path_join_spec(runtime_dir@, "bus"@),
    ]);
    files
}

/// `dir/NAME` for each entry name that begins with one of the prefixes.
pub open spec fn entries_with_prefix(dir: Seq<char>, names: Seq<Seq<char>>, a: Seq<char>, b: Seq<char>) -> Seq<Seq<char>>
    decreases names.len(),
{
    if names.len() == 0 {
        Seq::empty()
    } else {
        let rest = entries_with_prefix(dir, names.drop_last(), a, b);
        if is_prefix(a, names.last()) || is_prefix(b, names.last()) {
            rest.push(path_join_spec(dir, names.last()))
        } else {
            rest
        }
    }
}

/// Appends `dir/NAME` for each name that begins with `a` or `b`.
fn push_entries_with_prefix(out: &mut Vec<String>, dir: &str, names: &[String], a: &str, b: &str)
    ensures
        texts(final(out)@) == texts(old(out)@) + entries_with_prefix(dir@, texts(names@), a@, b@),
{
    let ghost start = texts(out@);
    let ghost ns = texts(names@);
    let mut i: usize = 0;
    while i < names.len()
        invariant
            i <= names@.len(),
            ns == texts(names@),
            texts(out@) == start + entries_with_prefix(dir@, ns.take(i as int), a@, b@),
        decreases names@.len() - i,
    {
        let name = names[i].as_str();
        assert(ns.take(i + 1).drop_last() =~= ns.take(i as int));
        assert(ns[i as int] == name@);
        if str_starts_with(name, a) || str_starts_with(name, b) {
            let ghost before = texts(out@);
            out.push(path_join(dir, name));
            assert(texts(out@) =~= before.push(path_join_spec(dir@, name@)));
        }
        i = i + 1;
    }
    assert(ns.take(i as int) =~= ns);
}

/// The device nodes opened to everyone for input and rendering: `uinput`,
/// `uhid`, the DRM cards and render nodes, and the input event nodes, from
/// the entry names of `/dev/dri` and `/dev/input`.
pub fn device_node_paths(dri_entries: &[String], input_entries: &[String]) -> (r: Vec<String>)
    ensures
        texts(r@) == seq!["/dev/uinput"@, "/dev/uhid"@] + entries_with_prefix(
            "/dev/dri"@,
            texts(dri_entries@),
            "card"@,
            "renderD"@,
        ) + entries_with_prefix("/dev/input"@, texts(input_entries@), "event"@, "event"@),
{
    let mut paths: Vec<String> = Vec::new();
    paths.push(owned("/dev/uinput"));
    paths.push(owned("/dev/uhid"));
    assert(texts(paths@) =~= seq!["/dev/uinput"@, "/dev/uhid"@]);
    push_entries_with_prefix(&mut paths, "/dev/dri", dri_entries, "card", "renderD");
    push_entries_with_prefix(&mut paths, "/dev/input", input_entries, "event", "event");
    paths
}

/// The event devices under `/sys/class/input`, in order, from the entry
/// names of that directory.
pub fn input_event_devices(entries: &[String]) -> (r: Vec<String>)
    ensures
        sorted_texts(texts(r@)),
        texts(r@).to_multiset() == entries_with_prefix(
            "/sys/class/input"@,
            texts(entries@),
            "event"@,
            "event"@,
        ).to_multiset(),
{
    let mut found: Vec<String> = Vec::new();
    assert(texts(found@) + entries_with_prefix("/sys/class/input"@, texts(entries@), "event"@, "event"@)
        =~= entries_with_prefix("/sys/class/input"@, texts(entries@), "event"@, "event"@));
    push_entries_with_prefix(&mut found, "/sys/class/input", entries, "event", "event");
    sort_texts(found)
}

/// The device numbers in the text of a sysfs `dev` file: `MAJOR:MINOR`,
/// surrounding whitespace ignored, split at the first colon.
pub open spec fn device_numbers_spec(text: Seq<char>) -> Option<(u64, u64)> {
    let t = trim_spec(text);
    let c = first_of(t, ':', ':');
    if c < t.len() {
        match (parse_u64_spec(t.take(c)), parse_u64_spec(t.skip(c + 1))) {
            (Some(major), Some(minor)) => Some((major, minor)),
            _ => None,
        }
    } else {
        None
    }
}

/// Reads the device numbers of a sysfs `dev` file, as
/// `device_numbers_spec` describes.
pub fn parse_device_numbers(text: &str) -> (r: Option<(u64, u64)>)
    ensures
        r == device_numbers_spec(text@),
{
    let t = trim(text);
    let s = chars_of(t.as_str());
    let n = s.len();
    let c = find_first_of(&s, 0, n, ':', ':');
    assert(s@.subrange(0, n as int) =~= s@);
    if c >= n {
        return None;
    }
    let major_chars = slice_chars(&s, 0, c);
    let minor_chars = slice_chars(&s, c + 1, n);
    let major_text = string_of(&major_chars);
    let minor_text = string_of(&minor_chars);
    assert(major_text@ =~= s@.take(c as int));
    assert(minor_text@ =~= s@.skip(c + 1));
    match (parse_u64(major_text.as_str()), parse_u64(minor_text.as_str())) {
        (Some(major), Some(minor)) => Some((major, minor)),
        _ => None,
    }
}

/// The lines that do not mention the disconnect entry.
pub open spec fn lines_without_disconnect(ls: Seq<Seq<char>>) -> Seq<Seq<char>>
    decreases ls.len(),
{
    if ls.len() == 0 {
        Seq::empty()
    } else {
        let rest = lines_without_disconnect(ls.drop_last());
        if contains_text(ls.last(), DISCONNECT_DESKTOP_ID@) {
            rest
        } else {
            rest.push(ls.last())
        }
    }
}

/// Plasma's applet configuration without the lines that map the disconnect
/// entry, ending in a line feed; `None` when no line mentions it.
pub open spec fn disconnect_mapping_cleanup_spec(text: Seq<char>) -> Option<Seq<char>> {
    let ls = lines_spec(text);
    let kept = lines_without_disconnect(ls);
    if kept.len() == ls.len() {
        None
    } else {
        Some(join_spec(kept, "\n"@) + "\n"@)
    }
}

/// Removes the disconnect entry's mappings, as
/// `disconnect_mapping_cleanup_spec` describes.
pub fn cleanup_disconnect_desktop_mapping(text: &str) -> (r: Option<String>)
    ensures
        match disconnect_mapping_cleanup_spec(text@) {
            Some(t) => r matches Some(x) && x@ == t,
            None => r is None,
        },
{
    let lines = split_lines(text);
    let ghost ls = texts(lines@);
    let mut kept: Vec<String> = Vec::new();
    let mut i: usize = 0;
    while i < lines.len()
        invariant
            i <= lines@.len(),
            ls == texts(lines@),
            texts(kept@) == lines_without_disconnect(ls.take(i as int)),
        decreases lines@.len() - i,
    {
        let line = &lines[i];
        assert(ls.take(i + 1).drop_last() =~= ls.take(i as int));
        if !str_contains(line.as_str(), DISCONNECT_DESKTOP_ID) {
            let ghost before = texts(kept@);
            kept.push(line.clone());
            assert(texts(kept@) =~= before.push(line@));
        }
        i = i + 1;
    }
    assert(ls.take(i as int) =~= ls);
    if kept.len() == lines.len() {
        return None;
    }
    let mut out = join_with(&kept, "\n");
    push_str(&mut out, "\n");
    Some(out)
}

/// A line of the applet configuration as the kickoff fix writes it: the
/// launcher plugin set to Kickoff, no primary actions, no system favorites.
pub open spec fn kickoff_line(line: Seq<char>) -> Seq<char> {
    if line == "plugin=metadata"@ {
        "plugin=org.kde.plasma.kickoff"@
    } else if is_prefix("primaryActions="@, line) {
        "primaryActions=0"@
    } else if is_prefix("systemFavorites="@, line) {
        "systemFavorites="@
    } else {
        line
    }
}

/// The kickoff fix rewrites this line.
pub open spec fn kickoff_rewrites(line: Seq<char>) -> bool {
    line == "plugin=metadata"@ || is_prefix("primaryActions="@, line) || is_prefix("systemFavorites="@, line)
}

/// Each line as `kickoff_line` writes it.
pub open spec fn kickoff_lines(ls: Seq<Seq<char>>) -> Seq<Seq<char>> {
    ls.map_values(|l: Seq<char>| kickoff_line(l))
}

/// Plasma's applet configuration with the kickoff fix applied, ending in a
/// line feed; `None` when no line needs it.
pub open spec fn kickoff_cleanup_spec(text: Seq<char>) -> Option<Seq<char>> {
    let ls = lines_spec(text);
    if exists|i: int| 0 <= i < ls.len() && kickoff_rewrites(#[trigger] ls[i]) {
        Some(join_spec(kickoff_lines(ls), "\n"@) + "\n"@)
    } else {
        None
    }
}

/// Applies the kickoff fix, as `kickoff_cleanup_spec` describes.
pub fn cleanup_kickoff_launcher_config(text: &str) -> (r: Option<String>)
    ensures
        match kickoff_cleanup_spec(text@) {
            Some(t) => r matches Some(x) && x@ == t,
            None => r is None,
        },
{
    let lines = split_lines(text);
    let ghost ls = texts(lines@);
    let mut fixed: Vec<String> = Vec::new();
    let mut changed = false;
    let mut i: usize = 0;
    while i < lines.len()
        invariant
            i <= lines@.len(),
            ls == texts(lines@),
            texts(fixed@) == kickoff_lines(ls.take(i as int)),
            changed <==> exists|k: int| 0 <= k < i && kickoff_rewrites(#[trigger] ls[k]),
        decreases lines@.len() - i,
    {
        let line = lines[i].as_str();
        assert(ls[i as int] == line@);
        let ghost before = texts(fixed@);
        if str_eq(line, "plugin=metadata") {
            fixed.push(owned("plugin=org.kde.plasma.kickoff"));
            changed = true;
        } else if str_starts_with(line, "primaryActions=") {
            fixed.push(owned("primaryActions=0"));
            changed = true;
        } else if str_starts_with(line, "systemFavorites=") {
            fixed.push(owned("systemFavorites="));
            changed = true;
        } else {
            fixed.push(owned(line));
        }
        assert(texts(fixed@) =~= before.push(kickoff_line(line@)));
        assert(kickoff_lines(ls.take(i + 1)) =~= kickoff_lines(ls.take(i as int)).push(kickoff_line(line@)));
        i = i + 1;
    }
    assert(ls.take(i as int) =~= ls);
    if !changed {
        return None;
    }
    let mut out = join_with(&fixed, "\n");
    push_str(&mut out, "\n");
    Some(out)
}

/// KDE's session manager: log out without asking, start an empty session.
pub const KSMSERVER_RC: &'static str = "[General]\nconfirmLogout=false\nloginMode=emptySession\n";

/// No splash screen.
pub const KSPLASH_RC: &'static str = "[KSplash]\nEngine=none\n";

/// The environment script that Plasma sources at the start of a session.
pub const PLASMA_ENV_SCRIPT: &'static str = "export XDG_SESSION_TYPE=wayland\nexport XDG_CURRENT_DESKTOP=KDE\nexport XDG_SESSION_DESKTOP=KDE\nexport XDG_MENU_PREFIX=plasma-\nexport DESKTOP_SESSION=plasma\nexport KDE_SESSION_VERSION=6\nexport KDE_FULL_SESSION=true\nexport LC_MESSAGES=en_US.UTF-8\nexport LANGUAGE=en_US\nexport DISPLAY=${SUNSHINE_XWAYLAND_DISPLAY:-:0}\nexport QT_QPA_PLATFORM=wayland\nexport SDL_VIDEODRIVER=wayland,x11\nexport MOZ_ENABLE_WAYLAND=1\nexport GIO_USE_NETWORK_MONITOR=base\nexport STEAM_RUNTIME=1\nexport SRT_URLOPEN_PREFER_STEAM=1\nexport STEAM_DISABLE_AUDIO_DEVICE_SWITCHING=1\n";

/// The application entry that closes the stream.
pub const DISCONNECT_DESKTOP_ENTRY: &'static str = "[Desktop Entry]\nType=Application\nName=Disconnect\nComment=Close the Moonlight stream\nExec=/usr/local/bin/arch-sunshine disconnect\nIcon=system-log-out\nTerminal=false\nCategories=System;\nStartupNotify=false\nNoDisplay=false\n";

/// Why the desktop session cannot be prepared by another user.
pub const ROOT_REQUIRED_MESSAGE: &'static str = "desktop-session must run as root so it can prepare /run/user and the persistent home bind mount";

} // verus!
