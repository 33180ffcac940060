//! The environment of the desktop session's processes.
use vstd::prelude::*;
use crate::paths::{home_dir, join_spec, path_join};
use crate::table::pair_texts;
use crate::text::{chars_of, owned, push_str, trim, trim_spec};

verus! {

/// The settings of the container's environment that shape the desktop's.
pub struct DesktopEnvSettings {
    /// `SUNSHINE_XWAYLAND_DISPLAY`: the X display for Xwayland clients.
    pub xwayland_display: Option<String>,
    /// `ARCH_SUNSHINE_PIPEWIRE_DEBUG`: PipeWire's debug level.
    pub pipewire_debug: Option<String>,
    /// `ARCH_SUNSHINE_WIREPLUMBER_LOG_LEVEL`: WirePlumber's log level.
    pub wireplumber_log_level: Option<String>,
    /// `SUNSHINE_KWIN_COMPOSE`: the compositing backend for KWin.
    pub kwin_compose: Option<String>,
}

/// The pairs that a setting adds when it is set and not blank, with its
/// value trimmed.
pub open spec fn when_set(value: Option<String>, pairs: spec_fn(Seq<char>) -> Seq<(Seq<char>, Seq<char>)>) -> Seq<(Seq<char>, Seq<char>)> {
    match value {
        Some(v) => if trim_spec(v@).len() > 0 {
            pairs(trim_spec(v@))
        } else {
            Seq::empty()
        },
        None => Seq::empty(),
    }
}

/// The fixed part of the desktop environment for `user`, with its runtime
/// directory and X display.
pub open spec fn base_pairs(user: Seq<char>, runtime_dir: Seq<char>, display: Seq<char>) -> Seq<(Seq<char>, Seq<char>)> {
    let home = "/home/"@ + user;
    seq![
        ("HOME"@, home),
        ("USER"@, user),
        ("LOGNAME"@, user),
        ("LANG"@, "en_US.UTF-8"@),
        ("LC_CTYPE"@, "en_US.UTF-8"@),
        ("LC_MESSAGES"@, "en_US.UTF-8"@),
        ("LANGUAGE"@, "en_US"@),
        ("XDG_RUNTIME_DIR"@, runtime_dir),
        ("XDG_CONFIG_HOME"@, join_spec(home, ".config"@)),
        ("XDG_DATA_HOME"@, join_spec(join_spec(home, ".local"@), "share"@)),
        ("XDG_CURRENT_DESKTOP"@, "KDE"@),
        ("XDG_MENU_PREFIX"@, "plasma-"@),
        ("XDG_SESSION_DESKTOP"@, "KDE"@),
        ("XDG_SESSION_TYPE"@, "wayland"@),
        ("DESKTOP_SESSION"@, "plasma"@),
        ("KDE_SESSION_VERSION"@, "6"@),
        ("KDE_FULL_SESSION"@, "true"@),
        ("DISPLAY"@, display),
        ("QT_QPA_PLATFORM"@, "wayland"@),
        ("SDL_VIDEODRIVER"@, "wayland,x11"@),
        ("MOZ_ENABLE_WAYLAND"@, "1"@),
        ("GIO_USE_NETWORK_MONITOR"@, "base"@),
        ("RES_OPTIONS"@, "timeout:1 attempts:2 rotate single-request-reopen"@),
        ("PULSE_SERVER"@, "unix:"@ + runtime_dir + "/pulse/native"@),
        ("STEAM_RUNTIME"@, "1"@),
        ("SRT_URLOPEN_PREFER_STEAM"@, "1"@),
        ("STEAM_DISABLE_AUDIO_DEVICE_SWITCHING"@, "1"@),
    ]
}

/// The environment of the desktop's processes, pair by pair: the fixed
/// part, the logging settings that are set, then the session bus address
/// and the Wayland display when given.
pub open spec fn desktop_env_spec(
    user: Seq<char>,
    runtime_dir: Seq<char>,
    dbus_address: Option<Seq<char>>,
    wayland_display: Option<Seq<char>>,
    settings: DesktopEnvSettings,
) -> Seq<(Seq<char>, Seq<char>)> {
    let display = match settings.xwayland_display {
        Some(d) => d@,
        None => ":0"@,
    };
    base_pairs(user, runtime_dir, display)
        + when_set(settings.pipewire_debug, |t: Seq<char>| seq![("PIPEWIRE_DEBUG"@, t), ("PIPEWIRE_LOG"@, "1"@)])
        + when_set(settings.wireplumber_log_level, |t: Seq<char>| seq![("WIREPLUMBER_LOG_LEVEL"@, t)])
        + when_set(settings.kwin_compose, |t: Seq<char>| seq![("KWIN_COMPOSE"@, t)])
        + match dbus_address {
        Some(a) => seq![("DBUS_SESSION_BUS_ADDRESS"@, a)],
        None => Seq::empty(),
    } + match wayland_display {
        Some(d) => seq![("WAYLAND_DISPLAY"@, d)],
        None => Seq::empty(),
    }
}

/// Appends a pair.
fn push_pair(env: &mut Vec<(String, String)>, key: &str, value: &str)
    ensures
        pair_texts(final(env)@) == pair_texts(old(env)@).push((key@, value@)),
{
    let ghost before = pair_texts(env@);
    env.push((owned(key), owned(value)));
    assert(pair_texts(env@) =~= before.push((key@, value@)));
}

/// The trimmed setting, when it is set and not blank.
fn trimmed_setting(value: &Option<String>) -> (r: Option<String>)
    ensures
        match *value {
            Some(v) => if trim_spec(v@).len() > 0 {
                r matches Some(t) && t@ == trim_spec(v@)
            } else {
                r is None
            },
            None => r is None,
        },
{
    match value {
        Some(v) => {
            let t = trim(v.as_str());
            if chars_of(t.as_str()).len() > 0 {
                Some(t)
            } else {
                None
            }
        },
        None => None,
    }
}

/// The environment of the desktop's processes, as `desktop_env_spec`
/// states it. The caller turns the pairs into a map by key.
pub fn desktop_base_env(
    user: &str,
    runtime_dir: &str,
    dbus_address: Option<&str>,
    wayland_display: Option<&str>,
    settings: &DesktopEnvSettings,
) -> (r: Vec<(String, String)>)
    ensures
        pair_texts(r@) == desktop_env_spec(
            user@,
            runtime_dir@,
            match dbus_address {
                Some(a) => Some(a@),
                None => None,
            },
            match wayland_display {
                Some(d) => Some(d@),
                None => None,
            },
            *settings,
        ),
{
    let home = home_dir(user);
    let config_home = path_join(home.as_str(), ".config");
    let local = path_join(home.as_str(), ".local");
    let data_home = path_join(local.as_str(), "share");
    let display: &str = match &settings.xwayland_display {
        Some(d) => d.as_str(),
        None => ":0",
    };
    let mut pulse = owned("unix:");
    push_str(&mut pulse, runtime_dir);
    push_str(&mut pulse, "/pulse/native");
    let mut env: Vec<(String, String)> = Vec::new();
    push_pair(&mut env, "HOME", home.as_str());
    push_pair(&mut env, "USER", user);
    push_pair(&mut env, "LOGNAME", user);
    push_pair(&mut env, "LANG", "en_US.UTF-8");
    push_pair(&mut env, "LC_CTYPE", "en_US.UTF-8");
    push_pair(&mut env, "LC_MESSAGES", "en_US.UTF-8");
    push_pair(&mut env, "LANGUAGE", "en_US");
    push_pair(&mut env, "XDG_RUNTIME_DIR", runtime_dir);
    push_pair(&mut env, "XDG_CONFIG_HOME", config_home.as_str());
    push_pair(&mut env, "XDG_DATA_HOME", data_home.as_str());
    push_pair(&mut env, "XDG_CURRENT_DESKTOP", "KDE");
    push_pair(&mut env, "XDG_MENU_PREFIX", "plasma-");
    push_pair(&mut env, "XDG_SESSION_DESKTOP", "KDE");
    push_pair(&mut env, "XDG_SESSION_TYPE", "wayland");
    push_pair(&mut env, "DESKTOP_SESSION", "plasma");
    push_pair(&mut env, "KDE_SESSION_VERSION", "6");
    push_pair(&mut env, "KDE_FULL_SESSION", "true");
    push_pair(&mut env, "DISPLAY", display);
    push_pair(&mut env, "QT_QPA_PLATFORM", "wayland");
    push_pair(&mut env, "SDL_VIDEODRIVER", "wayland,x11");
    push_pair(&mut env, "MOZ_ENABLE_WAYLAND", "1");
    push_pair(&mut env, "GIO_USE_NETWORK_MONITOR", "base");
    push_pair(&mut env, "RES_OPTIONS", "timeout:1 attempts:2 rotate single-request-reopen");
    push_pair(&mut env, "PULSE_SERVER", pulse.as_str());
    push_pair(&mut env, "STEAM_RUNTIME", "1");
    push_pair(&mut env, "SRT_URLOPEN_PREFER_STEAM", "1");
    push_pair(&mut env, "STEAM_DISABLE_AUDIO_DEVICE_SWITCHING", "1");
    let ghost display_text = display@;
    assert(pair_texts(env@) =~= base_pairs(user@, runtime_dir@, display_text));
    let ghost base = pair_texts(env@);
    if let Some(level) = trimmed_setting(&settings.pipewire_debug) {
        push_pair(&mut env, "PIPEWIRE_DEBUG", level.as_str());
        push_pair(&mut env, "PIPEWIRE_LOG", "1");
    }
    assert(pair_texts(env@) =~= base + when_set(
        settings.pipewire_debug,
        |t: Seq<char>| seq![("PIPEWIRE_DEBUG"@, t), ("PIPEWIRE_LOG"@, "1"@)],
    ));
    let ghost with_pw = pair_texts(env@);
    if let Some(level) = trimmed_setting(&settings.wireplumber_log_level) {
        push_pair(&mut env, "WIREPLUMBER_LOG_LEVEL", level.as_str());
    }
    assert(pair_texts(env@) =~= with_pw + when_set(
        settings.wireplumber_log_level,
        |t: Seq<char>| seq![("WIREPLUMBER_LOG_LEVEL"@, t)],
    ));
    let ghost with_wp = pair_texts(env@);
    if let Some(compose) = trimmed_setting(&settings.kwin_compose) {
        push_pair(&mut env, "KWIN_COMPOSE", compose.as_str());
    }
    assert(pair_texts(env@) =~= with_wp + when_set(
        settings.kwin_compose,
        |t: Seq<char>| seq![("KWIN_COMPOSE"@, t)],
    ));
    let ghost with_compose = pair_texts(env@);
    if let Some(address) = dbus_address {
        push_pair(&mut env, "DBUS_SESSION_BUS_ADDRESS", address);
    }
    let ghost with_bus = pair_texts(env@);
    if let Some(display) = wayland_display {
        push_pair(&mut env, "WAYLAND_DISPLAY", display);
    }
    env
}

} // verus!
