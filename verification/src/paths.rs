//! Fixed locations and names used by the desktop runtime, and path joining.
//!
//! Paths are kept as strings; `path_join` follows std's `Path::join` on
//! Unix: an absolute component replaces the base, and otherwise a separator
//! is added unless the base is empty or already ends with one.
use vstd::prelude::*;
use crate::text::{chars_of, owned, push_char, push_str};

verus! {

pub const DESKTOP_USER_DEFAULT: &'static str = "sunshine";

pub const DESKTOP_UID: u32 = 1000;

pub const DESKTOP_GID: u32 = 1000;

pub const DEFAULT_CONFIG: &'static str = "/usr/share/arch-sunshine/pipelines.json";

pub const USER_DATA: &'static str = "/mnt/user_data";

pub const DEFAULT_RUNTIME_DIR: &'static str = "/run/user/1000";

pub const DEFAULT_SOCKET: &'static str = "arch-sunshine-wayland";

pub const CONTROL_FIFO_NAME: &'static str = "arch-sunshine-control.fifo";

pub const DISCONNECT_DESKTOP_ID: &'static str = "arch-sunshine-disconnect.desktop";

pub const SUNSHINE_CONFIG_DIR: &'static str = "/run/arch-sunshine/sunshine";

pub const DEFAULT_WIDTH: u32 = 1920;

pub const DEFAULT_HEIGHT: u32 = 1080;

pub const DEFAULT_FPS: &'static str = "60";

pub const DEFAULT_SCALE: &'static str = "auto";

/// The diagnostic pipeline's bitrate when none is given, in kbit/s.
pub const DEFAULT_BITRATE_KBPS: u32 = 50000;

pub const AUDIO_SINK_NAME: &'static str = "arch_sunshine_audio";

pub const AUDIO_SINK_DESCRIPTION: &'static str = "Arch_Stream_Audio";

/// Names KWin gives its virtual output.
pub open spec fn kwin_output_names_spec() -> Seq<Seq<char>> {
    seq!["Virtual-0"@, "ArchSunshine"@]
}

/// Names KWin gives its virtual output, in the order they are configured.
pub fn kwin_output_names() -> (names: Vec<String>)
    ensures
        names@.map_values(|n: String| n@) == kwin_output_names_spec(),
{
    let mut names: Vec<String> = Vec::new();
    names.push(owned("Virtual-0"));
    names.push(owned("ArchSunshine"));
    assert(names@.map_values(|n: String| n@) =~= kwin_output_names_spec());
    names
}

/// `Path::join` on Unix paths held as text.
pub open spec fn join_spec(base: Seq<char>, part: Seq<char>) -> Seq<char> {
    if part.len() > 0 && part[0] == '/' {
        part
    } else if base.len() > 0 && base.last() != '/' {
        base + seq!['/'] + part
    } else {
        base + part
    }
}

/// Joins a path component onto a base path, as `join_spec` describes.
pub fn path_join(base: &str, part: &str) -> (r: String)
    ensures
        r@ == join_spec(base@, part@),
{
    let b = chars_of(base);
    let p = chars_of(part);
    if p.len() > 0 && p[0] == '/' {
        return owned(part);
    }
    let mut out = owned(base);
    if b.len() > 0 && b[b.len() - 1] != '/' {
        push_char(&mut out, '/');
    }
    push_str(&mut out, part);
    out
}

/// The channel layout PulseAudio uses for a supported channel count.
pub open spec fn audio_channel_map_spec(channels: u32) -> Option<Seq<char>> {
    if channels == 2 {
        Some("front-left,front-right"@)
    } else if channels == 6 {
        Some("front-left,front-right,front-center,lfe,rear-left,rear-right"@)
    } else if channels == 8 {
        Some("front-left,front-right,front-center,lfe,rear-left,rear-right,side-left,side-right"@)
    } else {
        None
    }
}

/// The channel layout for 2, 6 or 8 channels; `None` for other counts.
pub fn audio_channel_map(channels: u32) -> (r: Option<&'static str>)
    ensures
        r matches Some(m) ==> audio_channel_map_spec(channels) == Some(m@),
        r is None <==> audio_channel_map_spec(channels) is None,
{
    match channels {
        2 => Some("front-left,front-right"),
        6 => Some("front-left,front-right,front-center,lfe,rear-left,rear-right"),
        8 => Some(
            "front-left,front-right,front-center,lfe,rear-left,rear-right,side-left,side-right",
        ),
        _ => None,
    }
}

/// The speaker positions of 5.1 sound, in PulseAudio's names.
pub open spec fn surround_positions() -> Seq<Seq<char>> {
    seq![
        "front-left"@,
        "front-right"@,
        "front-center"@,
        "lfe"@,
        "rear-left"@,
        "rear-right"@,
    ]
}

/// The channel map of each supported count lists exactly that many
/// distinct positions, without commas, separated by commas: stereo is front
/// left and right, 5.1 adds front center, LFE and the two rear speakers,
/// and 7.1 is 5.1 plus the two side speakers.
pub proof fn law_channel_map_positions()
    ensures
        audio_channel_map_spec(2) == Some(crate::lines::join_spec(surround_positions().take(2), ","@)),
        audio_channel_map_spec(6) == Some(crate::lines::join_spec(surround_positions(), ","@)),
        audio_channel_map_spec(8) == Some(
            crate::lines::join_spec(surround_positions() + seq!["side-left"@, "side-right"@], ","@),
        ),
        (surround_positions() + seq!["side-left"@, "side-right"@]).len() == 8,
        surround_positions().len() == 6,
        forall|i: int, j: int|
            0 <= i < j < 8 ==> (surround_positions() + seq!["side-left"@, "side-right"@])[i]
                != (surround_positions() + seq!["side-left"@, "side-right"@])[j],
        forall|i: int, k: int|
            0 <= i < 8 && 0 <= k < (surround_positions() + seq!["side-left"@, "side-right"@])[i].len()
                ==> (surround_positions() + seq!["side-left"@, "side-right"@])[i][k] != ',',
{
    reveal_strlit("front-left");
    reveal_strlit("front-right");
    reveal_strlit("front-center");
    reveal_strlit("lfe");
    reveal_strlit("rear-left");
    reveal_strlit("rear-right");
    reveal_strlit("side-left");
    reveal_strlit("side-right");
    reveal_strlit(",");
    reveal_strlit("front-left,front-right");
    reveal_strlit("front-left,front-right,front-center,lfe,rear-left,rear-right");
    reveal_strlit("front-left,front-right,front-center,lfe,rear-left,rear-right,side-left,side-right");
    let all = surround_positions() + seq!["side-left"@, "side-right"@];
    reveal_with_fuel(crate::lines::join_spec, 9);
    assert(surround_positions().take(2) =~= seq!["front-left"@, "front-right"@]);
    assert(seq!["front-left"@, "front-right"@].drop_last() =~= seq!["front-left"@]);
    assert(crate::lines::join_spec(surround_positions().take(2), ","@) =~= "front-left,front-right"@);
    assert(crate::lines::join_spec(surround_positions(), ","@) =~= "front-left,front-right,front-center,lfe,rear-left,rear-right"@);
    assert(crate::lines::join_spec(all, ","@) =~= "front-left,front-right,front-center,lfe,rear-left,rear-right,side-left,side-right"@);
    assert(all[0] == "front-left"@ && all[1] == "front-right"@ && all[2] == "front-center"@
        && all[3] == "lfe"@ && all[4] == "rear-left"@ && all[5] == "rear-right"@ && all[6]
        == "side-left"@ && all[7] == "side-right"@);
    assert forall|i: int, j: int| 0 <= i < j < 8 implies all[i] != all[j] by {
        assert(all[i].len() != all[j].len() || all[i][0] != all[j][0]);
    }
}

/// The desktop user: the configured name, or `sunshine` when none is set.
pub fn desktop_user(configured: Option<&str>) -> (user: String)
    ensures
        user@ == match configured {
            Some(u) => u@,
            None => DESKTOP_USER_DEFAULT@,
        },
{
    match configured {
        Some(u) => owned(u),
        None => owned(DESKTOP_USER_DEFAULT),
    }
}

/// The desktop user's home, `/home/<user>`.
pub fn home_dir(user: &str) -> (r: String)
    ensures
        r@ == "/home/"@ + user@,
{
    let mut out = owned("/home/");
    push_str(&mut out, user);
    out
}

/// The persistent copy of the desktop user's home under the user data mount.
pub fn persistent_home_dir(user: &str) -> (r: String)
    ensures
        r@ == join_spec(join_spec(USER_DATA@, "home"@), user@),
{
    let base = path_join(USER_DATA, "home");
    path_join(base.as_str(), user)
}

/// `/mnt/user_data/var/log/arch-sunshine`, joined from its parts.
pub open spec fn log_dir_spec() -> Seq<char> {
    join_spec(join_spec(join_spec(USER_DATA@, "var"@), "log"@), "arch-sunshine"@)
}

/// Where the runtime writes its logs.
pub fn log_dir() -> (r: String)
    ensures
        r@ == log_dir_spec(),
{
    let a = path_join(USER_DATA, "var");
    let b = path_join(a.as_str(), "log");
    path_join(b.as_str(), "arch-sunshine")
}

/// Where Sunshine keeps its persistent state.
pub fn sunshine_state_dir() -> (r: String)
    ensures
        r@ == join_spec(join_spec(join_spec(USER_DATA@, "var"@), "lib"@), "sunshine"@),
{
    let a = path_join(USER_DATA, "var");
    let b = path_join(a.as_str(), "lib");
    path_join(b.as_str(), "sunshine")
}

/// The application entry that closes the stream.
pub fn disconnect_desktop_file(user: &str) -> (r: String)
    ensures
        r@ == join_spec(
            join_spec(join_spec(join_spec("/home/"@ + user@, ".local"@), "share"@), "applications"@),
            DISCONNECT_DESKTOP_ID@,
        ),
{
    let home = home_dir(user);
    let a = path_join(home.as_str(), ".local");
    let b = path_join(a.as_str(), "share");
    let c = path_join(b.as_str(), "applications");
    path_join(c.as_str(), DISCONNECT_DESKTOP_ID)
}

/// The old desktop icon that closed the stream.
pub fn disconnect_desktop_icon(user: &str) -> (r: String)
    ensures
        r@ == join_spec(join_spec("/home/"@ + user@, "Desktop"@), DISCONNECT_DESKTOP_ID@),
{
    let home = home_dir(user);
    let a = path_join(home.as_str(), "Desktop");
    path_join(a.as_str(), DISCONNECT_DESKTOP_ID)
}

/// The control channel inside a runtime directory: the given directory, else
/// the `XDG_RUNTIME_DIR` value, else `/run/user/1000`.
pub fn control_fifo_path(runtime_dir: Option<&str>, xdg_runtime_dir: Option<&str>) -> (r: String)
    ensures
        r@ == join_spec(
            match runtime_dir {
                Some(d) => d@,
                None => match xdg_runtime_dir {
                    Some(x) => x@,
                    None => DEFAULT_RUNTIME_DIR@,
                },
            },
            CONTROL_FIFO_NAME@,
        ),
{
    let dir: &str = match runtime_dir {
        Some(d) => d,
        None => match xdg_runtime_dir {
            Some(x) => x,
            None => DEFAULT_RUNTIME_DIR,
        },
    };
    path_join(dir, CONTROL_FIFO_NAME)
}

} // verus!
