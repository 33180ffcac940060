//! KDE configuration for the streaming desktop: which settings are
//! written with `kwriteconfig6`, the command lines of KWin and the activity
//! manager, and the rewrite of `kdeglobals` that keeps logout available.
use vstd::prelude::*;
use crate::decimal::magnitude_text;
use crate::json::{quoted, quoted_list};
use crate::env_config::{
    format_scale, kwin_virtual_geometry, one, plasma_scale_dpi, plasma_screen_scale_factors,
    scale_dpi_spec, scale_value, scale_value_spec, screen_scale_factors_spec, unit_scale,
};
use crate::decimal::divided_extent;
use crate::lines::{join_spec, join_with, lines_spec, replace_all, replace_spec, split_lines, texts};
use crate::paths::{disconnect_desktop_file, disconnect_desktop_icon, home_dir, DISCONNECT_DESKTOP_ID, join_spec as path_join_spec, kwin_output_names, kwin_output_names_spec, path_join};
use crate::text::{
    contains_text, is_prefix, str_contains, nat_text, owned, push_str, str_starts_with, u32_text,
};

verus! {

/// One `kwriteconfig6` call: a key set in a group path of a config file.
pub struct KConfigWrite {
    pub file: String,
    pub groups: Vec<String>,
    pub key: String,
    pub value: String,
}

/// A config write as text: file, groups, key and value.
pub open spec fn write_view(w: KConfigWrite) -> (Seq<char>, Seq<Seq<char>>, Seq<char>, Seq<char>) {
    (w.file@, texts(w.groups@), w.key@, w.value@)
}

/// The config writes as text.
pub open spec fn writes_view(ws: Seq<KConfigWrite>) -> Seq<(Seq<char>, Seq<Seq<char>>, Seq<char>, Seq<char>)> {
    ws.map_values(|w: KConfigWrite| write_view(w))
}

/// A config file of the desktop user: `~/.config/NAME`.
pub open spec fn config_file_spec(user: Seq<char>, name: Seq<char>) -> Seq<char> {
    path_join_spec(path_join_spec("/home/"@ + user, ".config"@), name)
}

/// `--group G` for each group, in order.
pub open spec fn group_args(groups: Seq<Seq<char>>) -> Seq<Seq<char>>
    decreases groups.len(),
{
    if groups.len() == 0 {
        Seq::empty()
    } else {
        group_args(groups.drop_last()) + seq!["--group"@, groups.last()]
    }
}

/// The `kwriteconfig6` command line that sets `key` to `value` in the
/// group path `groups` of the desktop user's config file `file_name`.
pub fn run_kwriteconfig(user: &str, file_name: &str, groups: &[String], key: &str, value: &str) -> (r:
    Vec<String>)
    ensures
        texts(r@) == seq!["kwriteconfig6"@, "--file"@, config_file_spec(user@, file_name@)]
            + group_args(texts(groups@)) + seq!["--key"@, key@, value@],
{
    let home = home_dir(user);
    let config = path_join(home.as_str(), ".config");
    let path = path_join(config.as_str(), file_name);
    let mut args: Vec<String> = Vec::new();
    args.push(owned("kwriteconfig6"));
    args.push(owned("--file"));
    args.push(path);
    let ghost head = texts(args@);
    let mut i: usize = 0;
    while i < groups.len()
        invariant
            i <= groups@.len(),
            texts(args@) == head + group_args(texts(groups@).take(i as int)),
        decreases groups@.len() - i,
    {
        let ghost before = texts(args@);
        args.push(owned("--group"));
        args.push(groups[i].clone());
        assert(texts(groups@).take(i + 1).drop_last() =~= texts(groups@).take(i as int));
        assert(texts(args@) =~= before + seq!["--group"@, groups@[i as int]@]);
        i = i + 1;
    }
    assert(texts(groups@).take(i as int) =~= texts(groups@));
    let ghost before = texts(args@);
    args.push(owned("--key"));
    args.push(owned(key));
    args.push(owned(value));
    assert(texts(args@) =~= before + seq!["--key"@, key@, value@]);
    args
}

/// A write of one key in a single group.
pub open spec fn write1(file: Seq<char>, group: Seq<char>, key: Seq<char>, value: Seq<char>) -> (Seq<char>, Seq<Seq<char>>, Seq<char>, Seq<char>) {
    (file, seq![group], key, value)
}

/// Appends a write of one key in a single group.
fn push_write(ws: &mut Vec<KConfigWrite>, file: &str, group: &str, key: &str, value: &str)
    ensures
        writes_view(final(ws)@) == writes_view(old(ws)@).push(write1(file@, group@, key@, value@)),
{
    let ghost before = writes_view(ws@);
    let mut groups: Vec<String> = Vec::new();
    groups.push(owned(group));
    let w = KConfigWrite { file: owned(file), groups, key: owned(key), value: owned(value) };
    assert(write_view(w) =~= write1(file@, group@, key@, value@));
    ws.push(w);
    assert(writes_view(ws@) =~= before.push(write1(file@, group@, key@, value@)));
}

/// The kded modules that a streaming session does not load.
pub open spec fn disabled_kded_modules() -> Seq<Seq<char>> {
    seq![
        "Module-appmenu"@,
        "Module-baloosearchmodule"@,
        "Module-bluedevil"@,
        "Module-device_automounter"@,
        "Module-gtkconfig"@,
        "Module-kscreen"@,
        "Module-kwallet"@,
        "Module-networkmanagement"@,
        "Module-powerdevil"@,
        "Module-printmanager"@,
        "Module-proxyscout"@,
        "Module-wacomtablet"@,
    ]
}

/// The KWin effects that a streaming session turns off.
pub open spec fn disabled_kwin_plugins() -> Seq<Seq<char>> {
    seq![
        "blurEnabled"@,
        "contrastEnabled"@,
        "desktopgridEnabled"@,
        "fadingpopupsEnabled"@,
        "fullscreenEnabled"@,
        "loginEnabled"@,
        "logoutEnabled"@,
        "magiclampEnabled"@,
        "maximizeEnabled"@,
        "morphingpopupsEnabled"@,
        "overviewEnabled"@,
        "presentwindowsEnabled"@,
        "scaleEnabled"@,
        "screenedgeEnabled"@,
        "slideEnabled"@,
        "slidingpopupsEnabled"@,
        "squashEnabled"@,
        "tileseditorEnabled"@,
        "windowapertureEnabled"@,
        "windowviewEnabled"@,
        "wobblywindowsEnabled"@,
        "zoomEnabled"@,
    ]
}

/// The compositor latency policy: the one configured, or `Low`.
pub open spec fn latency_policy_spec(configured: Option<Seq<char>>) -> Seq<char> {
    match configured {
        Some(p) => p,
        None => "Low"@,
    }
}

/// The settings a streaming session writes, in order: kded modules not
/// autoloaded, animations off, the compositor latency `policy`, KWin effects
/// off, the wallet off, and locking the screen restricted.
pub open spec fn session_tweaks_spec(policy: Seq<char>) -> Seq<
    (Seq<char>, Seq<Seq<char>>, Seq<char>, Seq<char>),
> {
    disabled_kded_modules().map_values(|m: Seq<char>| write1("kded6rc"@, m, "autoload"@, "false"@))
        + seq![
        write1("kdeglobals"@, "KDE"@, "AnimationDurationFactor"@, "0"@),
        write1("kwinrc"@, "Compositing"@, "AnimationSpeed"@, "0"@),
        write1("kwinrc"@, "Compositing"@, "LatencyPolicy"@, policy),
        write1("kwinrc"@, "Compositing"@, "GLPreferBufferSwap"@, "a"@),
    ] + disabled_kwin_plugins().map_values(|p: Seq<char>| write1("kwinrc"@, "Plugins"@, p, "false"@))
        + seq![
        write1("kwalletrc"@, "Wallet"@, "Enabled"@, "false"@),
        write1("kwalletrc"@, "Wallet"@, "First Use"@, "false"@),
        write1("kdeglobals"@, "KDE Action Restrictions"@, "action/lock_screen"@, "false"@),
        write1("kdeglobals"@, "KDE Action Restrictions"@, "lock_screen"@, "false"@),
    ]
}

/// The settings a streaming session writes, as `session_tweaks_spec` lists,
/// with the configured latency policy (`SUNSHINE_KWIN_LATENCY_POLICY`), or
/// `Low` when none is configured.
pub fn kde_session_tweaks(latency_policy: Option<&str>) -> (r: Vec<KConfigWrite>)
    ensures
        writes_view(r@) == session_tweaks_spec(
            latency_policy_spec(
                match latency_policy {
                    Some(p) => Some(p@),
                    None => None,
                },
            ),
        ),
{
    let policy: &str = match latency_policy {
        Some(p) => p,
        None => "Low",
    };
    let mut ws: Vec<KConfigWrite> = Vec::new();
    let modules = [
        "Module-appmenu",
        "Module-baloosearchmodule",
        "Module-bluedevil",
        "Module-device_automounter",
        "Module-gtkconfig",
        "Module-kscreen",
        "Module-kwallet",
        "Module-networkmanagement",
        "Module-powerdevil",
        "Module-printmanager",
        "Module-proxyscout",
        "Module-wacomtablet",
    ];
    let mut i: usize = 0;
    while i < 12
        invariant
            i <= 12,
            modules@.map_values(|m: &str| m@) == disabled_kded_modules(),
            writes_view(ws@) == disabled_kded_modules().take(i as int).map_values(
                |m: Seq<char>| write1("kded6rc"@, m, "autoload"@, "false"@),
            ),
        decreases 12 - i,
    {
        let m = modules[i];
        assert(m@ == disabled_kded_modules()[i as int]);
        push_write(&mut ws, "kded6rc", m, "autoload", "false");
        assert(disabled_kded_modules().take(i + 1).map_values(
            |m: Seq<char>| write1("kded6rc"@, m, "autoload"@, "false"@),
        ) =~= disabled_kded_modules().take(i as int).map_values(
            |m: Seq<char>| write1("kded6rc"@, m, "autoload"@, "false"@),
        ).push(write1("kded6rc"@, m@, "autoload"@, "false"@)));
        i = i + 1;
    }
    assert(disabled_kded_modules().take(12) =~= disabled_kded_modules());
    let ghost part1 = writes_view(ws@);
    push_write(&mut ws, "kdeglobals", "KDE", "AnimationDurationFactor", "0");
    push_write(&mut ws, "kwinrc", "Compositing", "AnimationSpeed", "0");
    push_write(&mut ws, "kwinrc", "Compositing", "LatencyPolicy", policy);
    push_write(&mut ws, "kwinrc", "Compositing", "GLPreferBufferSwap", "a");
    let ghost part2 = writes_view(ws@);
    let plugins = [
        "blurEnabled",
        "contrastEnabled",
        "desktopgridEnabled",
        "fadingpopupsEnabled",
        "fullscreenEnabled",
        "loginEnabled",
        "logoutEnabled",
        "magiclampEnabled",
        "maximizeEnabled",
        "morphingpopupsEnabled",
        "overviewEnabled",
        "presentwindowsEnabled",
        "scaleEnabled",
        "screenedgeEnabled",
        "slideEnabled",
        "slidingpopupsEnabled",
        "squashEnabled",
        "tileseditorEnabled",
        "windowapertureEnabled",
        "windowviewEnabled",
        "wobblywindowsEnabled",
        "zoomEnabled",
    ];
    let mut j: usize = 0;
    while j < 22
        invariant
            j <= 22,
            plugins@.map_values(|p: &str| p@) == disabled_kwin_plugins(),
            writes_view(ws@) == part2 + disabled_kwin_plugins().take(j as int).map_values(
                |p: Seq<char>| write1("kwinrc"@, "Plugins"@, p, "false"@),
            ),
        decreases 22 - j,
    {
        let p = plugins[j];
        assert(p@ == disabled_kwin_plugins()[j as int]);
        push_write(&mut ws, "kwinrc", "Plugins", p, "false");
        assert(disabled_kwin_plugins().take(j + 1).map_values(
            |p: Seq<char>| write1("kwinrc"@, "Plugins"@, p, "false"@),
        ) =~= disabled_kwin_plugins().take(j as int).map_values(
            |p: Seq<char>| write1("kwinrc"@, "Plugins"@, p, "false"@),
        ).push(write1("kwinrc"@, "Plugins"@, p@, "false"@)));
        j = j + 1;
    }
    assert(disabled_kwin_plugins().take(22) =~= disabled_kwin_plugins());
    let ghost part3 = writes_view(ws@);
    push_write(&mut ws, "kwalletrc", "Wallet", "Enabled", "false");
    push_write(&mut ws, "kwalletrc", "Wallet", "First Use", "false");
    push_write(&mut ws, "kdeglobals", "KDE Action Restrictions", "action/lock_screen", "false");
    push_write(&mut ws, "kdeglobals", "KDE Action Restrictions", "lock_screen", "false");
    assert(writes_view(ws@) =~= session_tweaks_spec(policy@));
    ws
}

/// The lines of `kdeglobals` that survive: those that do not begin with
/// `action/logout` or `logout`.
pub open spec fn kept_kdeglobals_lines(ls: Seq<Seq<char>>) -> Seq<Seq<char>>
    decreases ls.len(),
{
    if ls.len() == 0 {
        Seq::empty()
    } else {
        let rest = kept_kdeglobals_lines(ls.drop_last());
        if is_prefix("action/logout"@, ls.last()) || is_prefix("logout"@, ls.last()) {
            rest
        } else {
            rest.push(ls.last())
        }
    }
}

/// `kdeglobals` with every logout restriction dropped, ending in a line
/// feed, and the action restriction group made immutable.
pub open spec fn restrict_kdeglobals_spec(text: Seq<char>) -> Seq<char> {
    replace_spec(
        join_spec(kept_kdeglobals_lines(lines_spec(text)), "\n"@) + "\n"@,
        "[KDE Action Restrictions]\n"@,
        "[KDE Action Restrictions][$i]\n"@,
    )
}

/// Rewrites `kdeglobals` as `restrict_kdeglobals_spec` describes.
pub fn restrict_kdeglobals(text: &str) -> (r: String)
    ensures
        r@ == restrict_kdeglobals_spec(text@),
{
    let lines = split_lines(text);
    let ghost ls = texts(lines@);
    let mut kept: Vec<String> = Vec::new();
    let mut i: usize = 0;
    while i < lines.len()
        invariant
            i <= lines@.len(),
            ls == texts(lines@),
            texts(kept@) == kept_kdeglobals_lines(ls.take(i as int)),
        decreases lines@.len() - i,
    {
        let line = &lines[i];
        assert(ls.take(i + 1).drop_last() =~= ls.take(i as int));
        if !(str_starts_with(line.as_str(), "action/logout") || str_starts_with(line.as_str(), "logout")) {
            let ghost before = texts(kept@);
            kept.push(line.clone());
            assert(texts(kept@) =~= before.push(line@));
        }
        i = i + 1;
    }
    assert(ls.take(i as int) =~= ls);
    let mut joined = join_with(&kept, "\n");
    push_str(&mut joined, "\n");
    proof {
        reveal_strlit("[KDE Action Restrictions]\n");
    }
    replace_all(joined.as_str(), "[KDE Action Restrictions]\n", "[KDE Action Restrictions][$i]\n")
}

/// The content of the desktop user's `xdg-desktop-portal/portals.conf`:
/// the KDE portal for everything, screen casting and remote desktop too.
pub const PORTALS_CONF: &'static str = "[preferred]\ndefault=kde\norg.freedesktop.impl.portal.ScreenCast=kde\norg.freedesktop.impl.portal.RemoteDesktop=kde\n";

/// The display scale as KDE writes it.
pub open spec fn scale_text_spec(scale: Seq<char>) -> Seq<char> {
    magnitude_text(scale_value_spec(scale, unit_scale()))
}

/// The settings that set the display scale, in order: the scale factor, the
/// per-screen factors, scaled X clients, the X font DPI, and Xwayland's scale.
pub open spec fn scale_writes_spec(scale: Seq<char>) -> Seq<(Seq<char>, Seq<Seq<char>>, Seq<char>, Seq<char>)> {
    seq![
        write1("kdeglobals"@, "KScreen"@, "ScaleFactor"@, scale_text_spec(scale)),
        write1("kdeglobals"@, "KScreen"@, "ScreenScaleFactors"@, screen_scale_factors_spec(scale)),
        write1("kdeglobals"@, "KScreen"@, "XwaylandClientsScale"@, "true"@),
        write1("kdeglobals"@, "General"@, "Xft.dpi"@, nat_text(scale_dpi_spec(scale) as nat)),
        write1("kwinrc"@, "Xwayland"@, "Scale"@, scale_text_spec(scale)),
    ]
}

/// The `kcminit` command that reloads fonts and styles for X clients, when
/// `kcminit` is installed.
pub fn sync_x11_resources(kcminit_available: bool) -> (r: Option<Vec<String>>)
    ensures
        match r {
            Some(c) => kcminit_available && texts(c@) == seq!["kcminit"@, "kcm_fonts_init"@, "kcm_style_init"@],
            None => !kcminit_available,
        },
{
    if !kcminit_available {
        return None;
    }
    let mut c: Vec<String> = Vec::new();
    c.push(owned("kcminit"));
    c.push(owned("kcm_fonts_init"));
    c.push(owned("kcm_style_init"));
    assert(texts(c@) =~= seq!["kcminit"@, "kcm_fonts_init"@, "kcm_style_init"@]);
    Some(c)
}

/// What setting the display scale comes to: the config writes, the
/// `kscreen-doctor` commands that rescale each virtual output of a running
/// session, and the command that reloads X resources.
pub struct KdeScalePlan {
    pub writes: Vec<KConfigWrite>,
    pub output_commands: Vec<Vec<String>>,
    pub x11_sync: Option<Vec<String>>,
}

/// `kscreen-doctor output.NAME.scale.SCALE`.
pub open spec fn rescale_command(name: Seq<char>, scale_text: Seq<char>) -> Seq<Seq<char>> {
    seq!["kscreen-doctor"@, "output."@ + name + ".scale."@ + scale_text]
}

/// The command lines as text.
pub open spec fn commands_view(cmds: Seq<Vec<String>>) -> Seq<Seq<Seq<char>>> {
    cmds.map_values(|c: Vec<String>| texts(c@))
}

/// The plan that sets the display scale. A live session also rescales its
/// outputs, when `kscreen-doctor` is installed, and reloads X resources.
/// (The KWin output configuration file is updated alongside.)
pub fn apply_kde_scale_config(scale: &str, live: bool, kscreen_doctor_available: bool, kcminit_available: bool) -> (r:
    KdeScalePlan)
    ensures
        writes_view(r.writes@) == scale_writes_spec(scale@),
        commands_view(r.output_commands@) == if live && kscreen_doctor_available {
            kwin_output_names_spec().map_values(|n: Seq<char>| rescale_command(n, scale_text_spec(scale@)))
        } else {
            Seq::empty()
        },
        match r.x11_sync {
            Some(c) => live && kcminit_available && texts(c@) == seq!["kcminit"@, "kcm_fonts_init"@, "kcm_style_init"@],
            None => !(live && kcminit_available),
        },
{
    let scale_text = format_scale(scale_value(scale, one()));
    let dpi = u32_text(plasma_scale_dpi(scale));
    let factors = plasma_screen_scale_factors(scale);
    let mut writes: Vec<KConfigWrite> = Vec::new();
    push_write(&mut writes, "kdeglobals", "KScreen", "ScaleFactor", scale_text.as_str());
    push_write(&mut writes, "kdeglobals", "KScreen", "ScreenScaleFactors", factors.as_str());
    push_write(&mut writes, "kdeglobals", "KScreen", "XwaylandClientsScale", "true");
    push_write(&mut writes, "kdeglobals", "General", "Xft.dpi", dpi.as_str());
    push_write(&mut writes, "kwinrc", "Xwayland", "Scale", scale_text.as_str());
    assert(writes_view(writes@) =~= scale_writes_spec(scale@));
    let mut output_commands: Vec<Vec<String>> = Vec::new();
    if live && kscreen_doctor_available {
        let names = kwin_output_names();
        let ghost ns = texts(names@);
        let mut i: usize = 0;
        while i < names.len()
            invariant
                i <= names@.len(),
                ns == texts(names@),
                ns == kwin_output_names_spec(),
                scale_text@ == scale_text_spec(scale@),
                commands_view(output_commands@) == ns.take(i as int).map_values(
                    |n: Seq<char>| rescale_command(n, scale_text_spec(scale@)),
                ),
            decreases names@.len() - i,
        {
            let ghost before = commands_view(output_commands@);
            let mut arg = owned("output.");
            push_str(&mut arg, names[i].as_str());
            push_str(&mut arg, ".scale.");
            push_str(&mut arg, scale_text.as_str());
            let mut cmd: Vec<String> = Vec::new();
            cmd.push(owned("kscreen-doctor"));
            cmd.push(arg);
            assert(texts(cmd@) =~= rescale_command(ns[i as int], scale_text_spec(scale@)));
            output_commands.push(cmd);
            assert(commands_view(output_commands@) =~= before.push(rescale_command(ns[i as int], scale_text_spec(scale@))));
            assert(ns.take(i + 1).map_values(|n: Seq<char>| rescale_command(n, scale_text_spec(scale@)))
                =~= ns.take(i as int).map_values(|n: Seq<char>| rescale_command(n, scale_text_spec(scale@))).push(
                rescale_command(ns[i as int], scale_text_spec(scale@)),
            ));
            i = i + 1;
        }
        assert(ns.take(i as int) =~= ns);
    } else {
        assert(commands_view(output_commands@) =~= Seq::<Seq<Seq<char>>>::empty());
    }
    let x11_sync = if live {
        sync_x11_resources(kcminit_available)
    } else {
        None
    };
    KdeScalePlan { writes, output_commands, x11_sync }
}

/// The command line that starts KWin on a virtual output of the logical
/// size for the stream's geometry and scale, with Xwayland if asked.
pub open spec fn kwin_command_spec(socket: Seq<char>, xwayland: bool, width: u32, height: u32, scale: Seq<char>) -> Seq<Seq<char>> {
    let f = scale_value_spec(scale, unit_scale());
    seq![
        "kwin_wayland"@,
        "--virtual"@,
        "--width"@,
        nat_text(divided_extent(width as nat, f)),
        "--height"@,
        nat_text(divided_extent(height as nat, f)),
        "--scale"@,
        scale,
        "--socket"@,
        socket,
        "--no-lockscreen"@,
    ] + if xwayland {
        seq!["--xwayland"@]
    } else {
        Seq::empty()
    }
}

/// The KWin command line, as `kwin_command_spec` states it.
pub fn build_kwin_command(socket: &str, xwayland: bool, width: u32, height: u32, scale: &str) -> (r:
    Vec<String>)
    ensures
        texts(r@) == kwin_command_spec(socket@, xwayland, width, height, scale@),
{
    let (logical_w, logical_h) = kwin_virtual_geometry(width, height, scale);
    let mut command: Vec<String> = Vec::new();
    command.push(owned("kwin_wayland"));
    command.push(owned("--virtual"));
    command.push(owned("--width"));
    command.push(u32_text(logical_w));
    command.push(owned("--height"));
    command.push(u32_text(logical_h));
    command.push(owned("--scale"));
    command.push(owned(scale));
    command.push(owned("--socket"));
    command.push(owned(socket));
    command.push(owned("--no-lockscreen"));
    if xwayland {
        command.push(owned("--xwayland"));
    }
    assert(texts(command@) =~= kwin_command_spec(socket@, xwayland, width, height, scale@));
    command
}

/// How to start the activity manager: the system binary when it exists,
/// else the command on the search path when there is one.
pub fn kactivitymanagerd_command(system_binary_exists: bool, on_search_path: bool) -> (r: Option<Vec<String>>)
    ensures
        match r {
            Some(c) => if system_binary_exists {
                texts(c@) == seq!["/usr/lib/kactivitymanagerd"@]
            } else {
                on_search_path && texts(c@) == seq!["kactivitymanagerd"@]
            },
            None => !system_binary_exists && !on_search_path,
        },
{
    let mut c: Vec<String> = Vec::new();
    if system_binary_exists {
        c.push(owned("/usr/lib/kactivitymanagerd"));
        assert(texts(c@) =~= seq!["/usr/lib/kactivitymanagerd"@]);
        return Some(c);
    }
    if on_search_path {
        c.push(owned("kactivitymanagerd"));
        assert(texts(c@) =~= seq!["kactivitymanagerd"@]);
        return Some(c);
    }
    None
}

// ---------------------------------------------------------------------------
// The Plasma launcher script
// ---------------------------------------------------------------------------

/// A string as a JSON string literal (serde_json's `to_string`), which
/// escapes as `quoted` states. Serializing a string into memory cannot fail.
#[verifier::external_body]
fn json_string(s: &str) -> (r: String)
    ensures
        r@ == quoted(s@),
{
    serde_json::to_string(s).expect("a string serializes")
}

/// Strings as a compact JSON array (serde_json's `to_string`): `[`, their
/// literals separated by commas, and `]`.
#[verifier::external_body]
fn json_string_array(items: &[String]) -> (r: String)
    ensures
        r@ == seq!['['] + quoted_list(texts(items@)) + seq![']'],
{
    serde_json::to_string(items).expect("strings serialize")
}

/// The script text before the disconnect id.
pub const LAUNCHER_SCRIPT_HEAD: &'static str = "var disconnectId = ";

/// The script text between the disconnect id and the launcher URL.
pub const LAUNCHER_SCRIPT_URLS: &'static str = ";\nvar disconnectUrls = [";

/// The script text between the two URLs.
pub const LAUNCHER_SCRIPT_URL_SEPARATOR: &'static str = ", ";

/// The script text between the URLs and the task bar launchers.
pub const LAUNCHER_SCRIPT_TASKBAR: &'static str = "];\nvar taskbarLaunchers = ";

/// The rest of the script: it removes the disconnect icons from panels and
/// desktops, drops the disconnect entry and the system actions from the
/// launcher menus, sets the task bar launchers, and reports what it did.
pub const LAUNCHER_SCRIPT_TAIL: &'static str = ";\nvar result = {removedPanelIcons: 0, configuredLaunchers: 0, configuredTaskManagers: 0};\nfunction splitConfig(value) {\n    if (value === undefined || value === null) { return []; }\n    if (Array.isArray(value)) { value = value.join(\",\"); }\n    return String(value).split(/[;,]/).map(function(entry) { return String(entry).trim(); }).filter(function(entry) { return entry.length > 0; });\n}\nfunction isDisconnectValue(value) {\n    value = String(value);\n    return value === disconnectId || value === 'applications:' + disconnectId || value.indexOf(disconnectId) !== -1;\n}\nfunction withoutDisconnect(values) {\n    var seen = {}; var entries = [];\n    values.forEach(function(value) {\n        if (isDisconnectValue(value) || seen[value]) { return; }\n        seen[value] = true; entries.push(value);\n    });\n    return entries;\n}\nfunction isDisconnectUrl(value) {\n    value = String(value);\n    if (isDisconnectValue(value)) { return true; }\n    return disconnectUrls.indexOf(value) !== -1;\n}\nfunction configureLauncher(widget) {\n    widget.currentConfigGroup = ['General'];\n    if (widget.type === 'org.kde.plasma.kicker' || widget.type === 'org.kde.plasma.kickerdash') {\n        widget.writeConfig('favoriteApps', withoutDisconnect(splitConfig(widget.readConfig('favoriteApps'))));\n        widget.writeConfig('favoriteSystemActions', []); widget.reloadConfig();\n        result.configuredLaunchers += 1;\n    } else if (widget.type === 'org.kde.plasma.kickoff' || widget.type === 'metadata') {\n        widget.writeConfig('favorites', withoutDisconnect(splitConfig(widget.readConfig('favorites'))));\n        widget.writeConfig('primaryActions', 0); widget.writeConfig('systemFavorites', []); widget.reloadConfig();\n        result.configuredLaunchers += 1;\n    }\n}\nfunction configureTaskManager(widget) {\n    if (widget.type !== 'org.kde.plasma.icontasks' && widget.type !== 'org.kde.plasma.taskmanager') { return; }\n    widget.currentConfigGroup = ['General'];\n    widget.writeConfig('launchers', taskbarLaunchers.join(','));\n    widget.reloadConfig();\n    result.configuredTaskManagers += 1;\n}\nfunction visitWidgets(container) {\n    container.widgetIds.forEach(function(widgetId) {\n        var widget = container.widgetById(widgetId);\n        if (!widget) { return; }\n        if (widget.type === 'org.kde.plasma.icon') {\n            widget.currentConfigGroup = ['General'];\n            if (isDisconnectUrl(widget.readConfig('url'))) {\n                widget.remove(); result.removedPanelIcons += 1; return;\n            }\n        }\n        configureLauncher(widget); configureTaskManager(widget);\n    });\n}\npanels().forEach(visitWidgets);\ndesktops().forEach(visitWidgets);\nprint(JSON.stringify(result));\nJSON.stringify(result);";

/// The applications pinned to the task bar.
pub open spec fn taskbar_launchers() -> Seq<Seq<char>> {
    seq!["applications:org.kde.dolphin.desktop"@, "applications:firefox.desktop"@, "applications:steam.desktop"@]
}

/// The Plasma script that configures the launchers of `user`'s desktop,
/// with the disconnect id, the entry's and the old icon's `file://` URLs
/// and the task bar launchers written in as JSON.
pub open spec fn launcher_script_spec(user: Seq<char>) -> Seq<char> {
    LAUNCHER_SCRIPT_HEAD@ + quoted(DISCONNECT_DESKTOP_ID@) + LAUNCHER_SCRIPT_URLS@
        + quoted("file://"@ + path_join_spec(
        path_join_spec(path_join_spec(path_join_spec("/home/"@ + user, ".local"@), "share"@), "applications"@),
        DISCONNECT_DESKTOP_ID@,
    )) + LAUNCHER_SCRIPT_URL_SEPARATOR@ + quoted("file://"@ + path_join_spec(
        path_join_spec("/home/"@ + user, "Desktop"@),
        DISCONNECT_DESKTOP_ID@,
    )) + LAUNCHER_SCRIPT_TASKBAR@ + seq!['['] + quoted_list(taskbar_launchers()) + seq![']']
        + LAUNCHER_SCRIPT_TAIL@
}

/// The Plasma script that configures the launchers, as
/// `launcher_script_spec` states it.
pub fn plasma_launcher_script(user: &str) -> (r: String)
    ensures
        r@ == launcher_script_spec(user@),
{
    let mut launcher_url = owned("file://");
    let file = disconnect_desktop_file(user);
    push_str(&mut launcher_url, file.as_str());
    let mut old_url = owned("file://");
    let icon = disconnect_desktop_icon(user);
    push_str(&mut old_url, icon.as_str());
    let mut taskbar: Vec<String> = Vec::new();
    taskbar.push(owned("applications:org.kde.dolphin.desktop"));
    taskbar.push(owned("applications:firefox.desktop"));
    taskbar.push(owned("applications:steam.desktop"));
    assert(texts(taskbar@) =~= taskbar_launchers());
    let id_json = json_string(DISCONNECT_DESKTOP_ID);
    let url_json = json_string(launcher_url.as_str());
    let old_json = json_string(old_url.as_str());
    let taskbar_json = json_string_array(&taskbar);
    let mut script = owned(LAUNCHER_SCRIPT_HEAD);
    push_str(&mut script, id_json.as_str());
    push_str(&mut script, LAUNCHER_SCRIPT_URLS);
    push_str(&mut script, url_json.as_str());
    push_str(&mut script, LAUNCHER_SCRIPT_URL_SEPARATOR);
    push_str(&mut script, old_json.as_str());
    push_str(&mut script, LAUNCHER_SCRIPT_TASKBAR);
    push_str(&mut script, taskbar_json.as_str());
    push_str(&mut script, LAUNCHER_SCRIPT_TAIL);
    script
}

/// The command that runs a script in Plasma's shell, limited to two
/// seconds.
pub fn plasma_script_argv(script: &str) -> (r: Vec<String>)
    ensures
        texts(r@) == seq!["timeout"@, "2s"@, "qdbus6"@, "org.kde.plasmashell"@, "/PlasmaShell"@, "evaluateScript"@, script@],
{
    let mut c: Vec<String> = Vec::new();
    c.push(owned("timeout"));
    c.push(owned("2s"));
    c.push(owned("qdbus6"));
    c.push(owned("org.kde.plasmashell"));
    c.push(owned("/PlasmaShell"));
    c.push(owned("evaluateScript"));
    c.push(owned(script));
    assert(texts(c@) =~= seq!["timeout"@, "2s"@, "qdbus6"@, "org.kde.plasmashell"@, "/PlasmaShell"@, "evaluateScript"@, script@]);
    c
}

/// The launcher script has run: the command succeeded and its output
/// carries the script's report.
pub fn launcher_script_done(success: bool, stdout: &str) -> (r: bool)
    ensures
        r == (success && contains_text(stdout@, "configuredLaunchers"@)),
{
    success && str_contains(stdout, "configuredLaunchers")
}

} // verus!
