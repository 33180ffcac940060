use arch_sunshine::desktop::compositor::{
    shutdown_order, start_desktop_stack, stack_timeout_message, stop_desktop_stack, DesktopProcess,
    StackStep,
};
use arch_sunshine::desktop::control::{
    apply_geometry, cleanup_delays, cleanup_step, cleanup_still_current, control_lines, plan_control,
    AudioState, CleanupStep, ControlMessage, GeometryAction,
    StreamGeometry,
};
use arch_sunshine::desktop::dbus_bus::{session_bus_argv, start_session_bus, start_system_bus};
use arch_sunshine::desktop::env::{desktop_base_env, DesktopEnvSettings};
use arch_sunshine::desktop::fs_setup::{
    cleanup_disconnect_desktop_mapping, cleanup_kickoff_launcher_config, desktop_directories,
    device_node_paths, input_event_devices, parse_device_numbers, stale_session_files,
};
use arch_sunshine::desktop::kde_config::{
    apply_kde_scale_config, build_kwin_command, kactivitymanagerd_command, kde_session_tweaks,
    launcher_script_done, plasma_launcher_script, plasma_script_argv, restrict_kdeglobals,
    run_kwriteconfig, sync_x11_resources, LAUNCHER_SCRIPT_HEAD, LAUNCHER_SCRIPT_TAIL,
};
use arch_sunshine::desktop::pipewire::{
    audio_sink_details, cleanup_sunshine_virtual_sinks, ensure_audio_sink,
    move_audio_streams_to_sink, node_id_in_dump, pipewire_node_id_from_dump, set_audio_defaults,
    set_audio_volume,
    sunshine_virtual_sink_modules, AudioSinkError, SinkDetails,
};
use arch_sunshine::desktop::process::{
    chown_path, command_candidates, desktop_user_argv, env_args, env_argv, kill_desktop_processes, max_log_bytes,
    name_has_owner_reply, process_name_running, process_running,
};
use arch_sunshine::desktop::session::{
    initial_session_state, optional_pid, session_actions_command, session_stale_paths,
    session_timeout_message, start, sunshine_command,
    DesktopSettings, SessionStep,
};
use arch_sunshine::env_config::DisplayEnv;
use arch_sunshine::json::JsonValue;

fn s(v: &str) -> String {
    v.to_string()
}

fn strings(v: &[&str]) -> Vec<String> {
    v.iter().map(|x| x.to_string()).collect()
}

fn no_env() -> DisplayEnv {
    DisplayEnv {
        width: None,
        height: None,
        fps: None,
        scale: None,
        client_width: None,
        client_height: None,
        client_fps: None,
        client_scale: None,
        audio_channels: None,
        client_audio_configuration: None,
    }
}

#[test]
fn kwin_command_uses_the_logical_size() {
    assert_eq!(
        build_kwin_command("arch-sunshine-wayland", true, 2560, 1440, "1.5"),
        strings(&[
            "kwin_wayland", "--virtual", "--width", "1707", "--height", "960", "--scale", "1.5",
            "--socket", "arch-sunshine-wayland", "--no-lockscreen", "--xwayland"
        ])
    );
    let plain = build_kwin_command("w", false, 1920, 1080, "1");
    assert_eq!(plain.last().unwrap(), "--no-lockscreen");
}

#[test]
fn kwriteconfig_command_line() {
    assert_eq!(
        run_kwriteconfig("sunshine", "kdeglobals", &strings(&["KDE", "Sub"]), "Key", "v"),
        strings(&[
            "kwriteconfig6", "--file", "/home/sunshine/.config/kdeglobals", "--group", "KDE",
            "--group", "Sub", "--key", "Key", "v"
        ])
    );
}

#[test]
fn session_tweaks_list() {
    let w = kde_session_tweaks(None);
    assert_eq!(w.len(), 42);
    assert_eq!(w[14].file, "kwinrc");
    assert_eq!(w[14].groups, strings(&["Compositing"]));
    assert_eq!(w[14].key, "LatencyPolicy");
    assert_eq!(w[14].value, "Low");
    let chosen = kde_session_tweaks(Some("ExtremelyLow"));
    assert_eq!(chosen[14].value, "ExtremelyLow");
    assert_eq!(chosen.len(), 42);
    assert_eq!(w[0].file, "kded6rc");
    assert_eq!(w[0].groups, strings(&["Module-appmenu"]));
    assert_eq!(w[0].key, "autoload");
    assert_eq!(w[12].key, "AnimationDurationFactor");
    assert_eq!(w[15].value, "a");
    assert_eq!(w[16].groups, strings(&["Plugins"]));
    assert_eq!(w[16].key, "blurEnabled");
    assert_eq!(w[41].key, "lock_screen");
    assert_eq!(w[41].groups, strings(&["KDE Action Restrictions"]));
}

#[test]
fn scale_config_plan() {
    let plan = apply_kde_scale_config("1.25", true, true, false);
    let keys: Vec<(String, String)> = plan.writes.iter().map(|w| (w.key.clone(), w.value.clone())).collect();
    assert_eq!(
        keys,
        vec![
            (s("ScaleFactor"), s("1.25")),
            (s("ScreenScaleFactors"), s("Virtual-0=1.25;ArchSunshine=1.25;")),
            (s("XwaylandClientsScale"), s("true")),
            (s("Xft.dpi"), s("120")),
            (s("Scale"), s("1.25")),
        ]
    );
    assert_eq!(
        plan.output_commands,
        vec![
            strings(&["kscreen-doctor", "output.Virtual-0.scale.1.25"]),
            strings(&["kscreen-doctor", "output.ArchSunshine.scale.1.25"])
        ]
    );
    assert!(plan.x11_sync.is_none());
    let offline = apply_kde_scale_config("2", false, true, true);
    assert!(offline.output_commands.is_empty());
    assert!(offline.x11_sync.is_none());
    assert_eq!(sync_x11_resources(true), Some(strings(&["kcminit", "kcm_fonts_init", "kcm_style_init"])));
    assert_eq!(sync_x11_resources(false), None);
}

#[test]
fn kdeglobals_keeps_logout() {
    let text = "[KDE Action Restrictions]\naction/logout=false\nlogout=false\nfoo=1\n[General]\nx=1";
    assert_eq!(restrict_kdeglobals(text), "[KDE Action Restrictions][$i]\nfoo=1\n[General]\nx=1\n");
    assert_eq!(restrict_kdeglobals(""), "\n");
}

#[test]
fn activity_manager_command() {
    assert_eq!(kactivitymanagerd_command(true, true), Some(strings(&["/usr/lib/kactivitymanagerd"])));
    assert_eq!(kactivitymanagerd_command(false, true), Some(strings(&["kactivitymanagerd"])));
    assert_eq!(kactivitymanagerd_command(false, false), None);
}

#[test]
fn launcher_script_embeds_json_strings() {
    let script = plasma_launcher_script("sunshine");
    assert!(script.starts_with(LAUNCHER_SCRIPT_HEAD));
    assert!(script.ends_with(LAUNCHER_SCRIPT_TAIL));
    assert!(script.contains("var disconnectId = \"arch-sunshine-disconnect.desktop\";"));
    assert!(script.contains(
        "var disconnectUrls = [\"file:///home/sunshine/.local/share/applications/arch-sunshine-disconnect.desktop\", \"file:///home/sunshine/Desktop/arch-sunshine-disconnect.desktop\"];"
    ));
    assert!(script.contains(
        "var taskbarLaunchers = [\"applications:org.kde.dolphin.desktop\",\"applications:firefox.desktop\",\"applications:steam.desktop\"];"
    ));
    assert_eq!(plasma_script_argv("x")[5], "evaluateScript");
    assert!(launcher_script_done(true, "{\"configuredLaunchers\":1}"));
    assert!(!launcher_script_done(false, "configuredLaunchers"));
    assert!(!launcher_script_done(true, "error"));
}

#[test]
fn base_environment() {
    let settings = DesktopEnvSettings {
        xwayland_display: None,
        pipewire_debug: Some(s("  3 ")),
        wireplumber_log_level: Some(s("   ")),
        kwin_compose: None,
    };
    let env = desktop_base_env("sunshine", "/run/user/1000", Some("unix:path=/run/user/1000/bus"), Some("wayland-1"), &settings);
    let get = |k: &str| env.iter().find(|(key, _)| key == k).map(|(_, v)| v.clone());
    assert_eq!(get("HOME"), Some(s("/home/sunshine")));
    assert_eq!(get("XDG_DATA_HOME"), Some(s("/home/sunshine/.local/share")));
    assert_eq!(get("DISPLAY"), Some(s(":0")));
    assert_eq!(get("PULSE_SERVER"), Some(s("unix:/run/user/1000/pulse/native")));
    assert_eq!(get("PIPEWIRE_DEBUG"), Some(s("3")));
    assert_eq!(get("PIPEWIRE_LOG"), Some(s("1")));
    assert_eq!(get("WIREPLUMBER_LOG_LEVEL"), None);
    assert_eq!(get("KWIN_COMPOSE"), None);
    assert_eq!(get("DBUS_SESSION_BUS_ADDRESS"), Some(s("unix:path=/run/user/1000/bus")));
    assert_eq!(get("WAYLAND_DISPLAY"), Some(s("wayland-1")));
    assert_eq!(env.len(), 31);
    let mut keys: Vec<&String> = env.iter().map(|(k, _)| k).collect();
    keys.sort();
    keys.dedup();
    assert_eq!(keys.len(), env.len());
}

#[test]
fn command_lines_for_the_desktop_user() {
    let env = vec![(s("A"), s("1")), (s("B"), s("x=y"))];
    assert_eq!(env_args(&env), strings(&["A=1", "B=x=y"]));
    assert_eq!(
        desktop_user_argv(&strings(&["kded6"]), &env),
        strings(&["setpriv", "--reuid", "1000", "--regid", "1000", "--init-groups", "--", "env", "A=1", "B=x=y", "kded6"])
    );
    assert_eq!(env_argv(&strings(&["run"]), &env), strings(&["env", "A=1", "B=x=y", "run"]));
    assert_eq!(chown_path("/x", true), strings(&["chown", "-R", "1000:1000", "/x"]));
    assert_eq!(chown_path("/y", false), strings(&["chown", "1000:1000", "/y"]));
    assert_eq!(process_running("kwin"), strings(&["pgrep", "-x", "kwin"]));
    assert_eq!(process_name_running("kwin"), strings(&["pgrep", "-u", "1000", "-x", "kwin"]));
    let kills = kill_desktop_processes();
    assert_eq!(kills.len(), 14);
    assert_eq!(kills[0], strings(&["pkill", "-TERM", "-f", "/usr/local/bin/arch-sunshine session-actions"]));
    assert_eq!(kills[1], strings(&["pkill", "-TERM", "-u", "1000", "-x", "sunshine"]));
    assert_eq!(kills[13], strings(&["pkill", "-TERM", "-u", "1000", "-f", "/usr/lib/kactivitymanagerd"]));
    assert!(name_has_owner_reply(" true\n"));
    assert!(!name_has_owner_reply("false"));
    assert_eq!(max_log_bytes(None), 16 * 1024 * 1024);
    assert_eq!(max_log_bytes(Some("1048576")), 1048576);
    assert_eq!(max_log_bytes(Some("1000")), 16 * 1024 * 1024);
    assert_eq!(max_log_bytes(Some("lots")), 16 * 1024 * 1024);
}

const SINKS: &str = "Sink #0\n\tState: SUSPENDED\n\tName: other_sink\n\tOwner Module: 9\n\tSample Specification: s16le 2ch 44100Hz\nSink #1\n\tState: RUNNING\n\tName: arch_sunshine_audio\n\tDescription: Arch_Stream_Audio\n\tSample Specification: float32le 6ch 48000Hz\n\tOwner Module: 536870913\nSink #2\n\tName: sink-sunshine-stereo\n\tOwner Module: 17\nSink #3\n\tName: sink-sunshine-71\n\tOwner Module: 12\nSink #4\n\tName: sink-sunshine-again\n\tOwner Module: 17\n";

#[test]
fn sink_details_from_pactl() {
    let d = audio_sink_details(Some(SINKS));
    assert_eq!(d.name, Some(s("arch_sunshine_audio")));
    assert_eq!(d.owner_module, Some(s("536870913")));
    assert_eq!(d.channels, Some(6));
    let none = audio_sink_details(Some("Sink #0\n\tName: other\n"));
    assert!(none.name.is_none() && none.owner_module.is_none() && none.channels.is_none());
    let last = audio_sink_details(Some("Sink #5\n\tName: arch_sunshine_audio\n\tOwner Module: abc\n"));
    assert_eq!(last.name, Some(s("arch_sunshine_audio")));
    assert_eq!(last.owner_module, None);
    assert!(audio_sink_details(None).name.is_none());
}

#[test]
fn sunshine_sinks_are_unloaded_once_each() {
    assert_eq!(sunshine_virtual_sink_modules(Some(SINKS)), strings(&["12", "17"]));
    assert_eq!(
        cleanup_sunshine_virtual_sinks(Some(SINKS)),
        vec![strings(&["pactl", "unload-module", "12"]), strings(&["pactl", "unload-module", "17"])]
    );
    assert!(cleanup_sunshine_virtual_sinks(None).is_empty());
}

#[test]
fn streams_volume_and_defaults() {
    assert_eq!(
        move_audio_streams_to_sink(Some("5\tprotocol-native.c\tfloat32le\n\n7 x\n")),
        vec![
            strings(&["pactl", "move-sink-input", "5", "arch_sunshine_audio"]),
            strings(&["pactl", "move-sink-input", "7", "arch_sunshine_audio"])
        ]
    );
    assert_eq!(
        set_audio_volume(2),
        vec![
            strings(&["pactl", "set-sink-volume", "arch_sunshine_audio", "100%", "100%"]),
            strings(&["pactl", "set-source-volume", "arch_sunshine_audio.monitor", "100%", "100%"])
        ]
    );
    assert_eq!(set_audio_defaults(Some("57")).len(), 3);
    assert_eq!(set_audio_defaults(None).len(), 2);
}

#[test]
fn sink_plans() {
    let missing = SinkDetails { name: None, owner_module: None, channels: None };
    let plan = ensure_audio_sink(&missing, Some(6), 2).ok().unwrap();
    assert_eq!(plan.channels, 6);
    assert!(plan.unload.is_none());
    assert_eq!(
        plan.load.unwrap(),
        strings(&[
            "pactl", "load-module", "module-null-sink", "sink_name=arch_sunshine_audio", "rate=48000",
            "channels=6", "channel_map=front-left,front-right,front-center,lfe,rear-left,rear-right",
            "sink_properties=device.description=Arch_Stream_Audio"
        ])
    );
    let stereo = SinkDetails { name: Some(s("arch_sunshine_audio")), owner_module: Some(s("536870913")), channels: Some(2) };
    let plan = ensure_audio_sink(&stereo, Some(8), 2).ok().unwrap();
    assert_eq!(plan.unload, Some(strings(&["pactl", "unload-module", "536870913"])));
    assert!(plan.load.is_some());
    let plan = ensure_audio_sink(&stereo, Some(4), 2).ok().unwrap();
    assert_eq!(plan.channels, 2);
    assert!(plan.unload.is_none() && plan.load.is_none());
    let orphan = SinkDetails { name: Some(s("arch_sunshine_audio")), owner_module: None, channels: Some(2) };
    let err = ensure_audio_sink(&orphan, Some(6), 2).err().unwrap();
    assert!(matches!(err, AudioSinkError::OwnerUnknown));
    assert_eq!(err.message(), "cannot recreate arch_sunshine_audio: owner module is unknown");
    let err = ensure_audio_sink(&missing, None, 3).err().unwrap();
    assert_eq!(err.message(), "unsupported audio channel count: 3");
    assert_eq!(AudioSinkError::RecreateFailed { channels: 6 }.message(), "failed to recreate arch_sunshine_audio with 6 channels");
    assert_eq!(AudioSinkError::CreateFailed.message(), "failed to create arch_sunshine_audio PipeWire sink");
}

#[test]
fn filesystem_plans() {
    let dirs = desktop_directories("sunshine", "/run/user/1000");
    assert_eq!(dirs.len(), 15);
    assert_eq!(dirs[1], "/mnt/user_data/home/sunshine");
    assert_eq!(dirs[2], "/mnt/user_data/var/log/arch-sunshine");
    assert_eq!(dirs[8], "/mnt/user_data/home/sunshine/.local/share");
    assert_eq!(
        stale_session_files("/run/user/1000"),
        strings(&["/run/user/1000/arch-sunshine-wayland", "/run/user/1000/arch-sunshine-wayland.lock", "/run/user/1000/bus"])
    );
    assert_eq!(
        device_node_paths(&strings(&["card0", "renderD128", "by-path"]), &strings(&["event3", "mice", "event0"])),
        strings(&["/dev/uinput", "/dev/uhid", "/dev/dri/card0", "/dev/dri/renderD128", "/dev/input/event3", "/dev/input/event0"])
    );
    assert_eq!(
        input_event_devices(&strings(&["event3", "mouse0", "event10", "event1"])),
        strings(&["/sys/class/input/event1", "/sys/class/input/event10", "/sys/class/input/event3"])
    );
    assert_eq!(parse_device_numbers("13:64\n"), Some((13, 64)));
    assert_eq!(parse_device_numbers(" 226:128 "), Some((226, 128)));
    assert_eq!(parse_device_numbers("13"), None);
    assert_eq!(parse_device_numbers("13: 64"), None);
}

#[test]
fn applet_config_rewrites() {
    let text = "[Containments][1]\nurl=file:///home/sunshine/Desktop/arch-sunshine-disconnect.desktop\nplugin=org.kde.plasma.icon\n";
    assert_eq!(cleanup_disconnect_desktop_mapping(text), Some(s("[Containments][1]\nplugin=org.kde.plasma.icon\n")));
    assert_eq!(cleanup_disconnect_desktop_mapping("a\nb\n"), None);
    let kickoff = "plugin=metadata\nprimaryActions=3\nsystemFavorites=lock\nother=1";
    assert_eq!(
        cleanup_kickoff_launcher_config(kickoff),
        Some(s("plugin=org.kde.plasma.kickoff\nprimaryActions=0\nsystemFavorites=\nother=1\n"))
    );
    assert_eq!(cleanup_kickoff_launcher_config("plugin=other\n"), None);
}

fn geometry(w: u32, h: u32, fps: &str, scale: &str) -> StreamGeometry {
    StreamGeometry { width: w, height: h, fps: s(fps), scale: s(scale) }
}

#[test]
fn control_messages_move_the_audio_state_on() {
    let defaults = geometry(1920, 1080, "60", "1");
    let mut audio = AudioState { channels: 2, generation: 7 };
    let start = ControlMessage::ClientStart {
        width: 2560,
        height: 1440,
        fps: s("120"),
        scale: s("1.5"),
        audio_channels: Some(6),
        ack: Some(s("/run/user/1000/ack")),
    };
    let plan = plan_control(&start, &mut audio, 2, &defaults);
    assert_eq!((audio.channels, audio.generation), (6, 8));
    assert!(plan.channels_changed);
    assert_eq!((plan.geometry.width, plan.geometry.height), (2560, 1440));
    assert_eq!(plan.reason, "Moonlight client requested geometry");
    assert_eq!(plan.ack, Some(s("/run/user/1000/ack")));
    assert!(!plan.cleanup_first);
    assert!(cleanup_still_current(audio.generation, plan.generation));
    let stop = ControlMessage::ClientStop { audio_channels: Some(8) };
    let plan2 = plan_control(&stop, &mut audio, 2, &defaults);
    assert_eq!((audio.channels, audio.generation), (6, 9));
    assert_eq!(plan2.geometry.scale, "1");
    assert_eq!(plan2.reason, "Moonlight client disconnected");
    assert!(plan2.cleanup_first);
    assert!(!cleanup_still_current(audio.generation, plan.generation));
    let mut wrapped = AudioState { channels: 2, generation: u64::MAX };
    let odd = ControlMessage::ClientStart { width: 1, height: 1, fps: s("60"), scale: s("1"), audio_channels: Some(5), ack: None };
    let plan3 = plan_control(&odd, &mut wrapped, 2, &defaults);
    assert_eq!((wrapped.channels, wrapped.generation), (2, 0));
    assert!(!plan3.channels_changed);
}

#[test]
fn geometry_changes_restart_only_when_needed() {
    let mut g = geometry(1920, 1080, "60", "1");
    let a = apply_geometry(&mut g, true, 1920, 1080, "144", "1");
    assert!(matches!(a, GeometryAction::KeepStack));
    assert_eq!(g.fps, "144");
    let a = apply_geometry(&mut g, true, 2560, 1440, "999", "1.5");
    assert!(matches!(a, GeometryAction::RestartStack { logical_width: 1707, logical_height: 960 }));
    assert_eq!((g.width, g.height, g.fps.as_str(), g.scale.as_str()), (2560, 1440, "60", "1.5"));
    let a = apply_geometry(&mut g, true, 2560, 1440, "60", "1.5");
    assert!(matches!(a, GeometryAction::KeepStack));
    let a = apply_geometry(&mut g, false, 2560, 1440, "60", "1.5");
    assert!(matches!(a, GeometryAction::RestartStack { .. }));
}

#[test]
fn start_up_and_shut_down_orders() {
    assert_eq!(start(false, false).len(), 18);
    assert_eq!(start(true, true).len(), 15);
    assert!(!start(true, false).contains(&SessionStep::StartAudio));
    assert_eq!(*start(false, false).last().unwrap(), SessionStep::WaitForSunshine);
    assert_eq!(session_timeout_message(SessionStep::WaitForSunshine), Some("timed out waiting for Sunshine on TCP port 47989"));
    assert_eq!(session_timeout_message(SessionStep::StartAudio), None);
    let g = geometry(1920, 1080, "60", "1");
    let steps = start_desktop_stack("wayland-9", true, &g, Some(strings(&["kactivitymanagerd"])));
    assert_eq!(steps.len(), 24);
    assert!(matches!(steps[4], StackStep::Start { process: DesktopProcess::Kwin, .. }));
    assert!(matches!(steps[6], StackStep::Keep { process: DesktopProcess::Kwin }));
    let kept: Vec<DesktopProcess> = steps
        .iter()
        .filter_map(|s| match s {
            StackStep::Keep { process } => Some(*process),
            _ => None,
        })
        .collect();
    assert_eq!(kept, stop_desktop_stack().into_iter().rev().collect::<Vec<_>>());
    assert_eq!(stack_timeout_message(&steps[5], "/run/user/1000/wayland-9"), Some(s("timed out waiting for KWin Wayland socket: /run/user/1000/wayland-9")));
    assert_eq!(start_desktop_stack("w", false, &g, None).len(), 21);
    assert_eq!(shutdown_order()[0], DesktopProcess::Sunshine);
    assert_eq!(stop_desktop_stack(), shutdown_order()[1..7].to_vec());
    assert_eq!(
        session_stale_paths("/run/user/1000", "wayland-0"),
        strings(&["/run/user/1000/wayland-0", "/run/user/1000/wayland-0.lock", "/run/user/1000/arch-sunshine-control.fifo"])
    );
    assert_eq!(optional_pid(""), None);
    assert_eq!(optional_pid("42"), Some(s("42")));
}

#[test]
fn desktop_settings_from_the_command_line() {
    let env = no_env();
    let d = DesktopSettings::from_inputs(None, None, Some(s("3840")), Some(s("2160")), None, None, false, true, true, &env);
    assert_eq!(d.runtime_dir, "/run/user/1000");
    assert_eq!(d.socket, "arch-sunshine-wayland");
    assert_eq!((d.geometry.width, d.geometry.height, d.geometry.fps.as_str(), d.geometry.scale.as_str()), (3840, 2160, "60", "1"));
    let d = DesktopSettings::from_inputs(Some(s("/tmp/rt")), Some(s("w")), Some(s("0")), None, Some(s("75.5")), Some(s("1.5")), true, false, false, &env);
    assert_eq!((d.geometry.width, d.geometry.fps.as_str(), d.geometry.scale.as_str()), (1920, "75.5", "1.5"));
    assert!(d.no_audio && !d.no_sunshine && !d.xwayland);
}

#[test]
fn bus_replies() {
    assert_eq!(
        session_bus_argv("/run/user/1000"),
        strings(&["dbus-daemon", "--session", "--fork", "--address=unix:path=/run/user/1000/bus", "--print-address", "--print-pid"])
    );
    let bus = start_session_bus("\nunix:path=/run/user/1000/bus,guid=ab\n  321 \n").unwrap();
    assert_eq!(bus.address, "unix:path=/run/user/1000/bus,guid=ab");
    assert_eq!(bus.pid, "321");
    assert!(start_session_bus("only-one\n").is_none());
    assert_eq!(start_system_bus("12\n 99 \n\n"), Some(s("99")));
    assert_eq!(start_system_bus(" \n"), None);
}

#[test]
fn command_candidates_join_each_path_entry() {
    assert_eq!(
        command_candidates(Some("/usr/bin:/bin"), "kwin_wayland"),
        vec!["/usr/bin/kwin_wayland".to_string(), "/bin/kwin_wayland".to_string()]
    );
    assert!(command_candidates(None, "pgrep").is_empty());
}

#[test]
fn initial_session_state_follows_the_settings() {
    let env = no_env();
    let d = DesktopSettings::from_inputs(None, None, Some(s("2560")), Some(s("1440")), None, None, false, false, false, &env);
    let st = initial_session_state(&d, &env);
    assert_eq!((st.geometry.width, st.geometry.height, st.geometry.fps.as_str()), (2560, 1440, "60"));
    assert_eq!(st.geometry.scale, d.geometry.scale);
    assert_eq!(st.audio.generation, 0);
    assert_eq!(st.audio.channels, 2);
    assert!(st.control_open);
    assert_eq!(
        st.kept,
        vec![
            DesktopProcess::SessionActions,
            DesktopProcess::Pipewire,
            DesktopProcess::Wireplumber,
            DesktopProcess::Pulse,
            DesktopProcess::Sunshine
        ]
    );
    let quiet = DesktopSettings::from_inputs(None, None, None, None, None, None, true, true, false, &env);
    assert_eq!(initial_session_state(&quiet, &env).kept, vec![DesktopProcess::SessionActions]);
}

#[test]
fn pipewire_node_ids_from_pw_dump() {
    let dump = br#"[
        {"id": 30, "info": {"props": {"node.name": "other", "media.class": "Audio/Sink", "object.id": 30}}},
        {"id": 42, "info": {"props": {"node.name": "arch_sunshine_audio", "media.class": "Audio/Sink", "object.id": 41}}}
    ]"#;
    assert_eq!(pipewire_node_id_from_dump(dump, "arch_sunshine_audio", "Audio/Sink"), Some(s("41")));
    assert_eq!(pipewire_node_id_from_dump(dump, "arch_sunshine_audio", "Audio/Source"), None);
    let no_object_id = br#"[{"id": 7, "info": {"props": {"node.name": "n", "media.class": "c"}}}]"#;
    assert_eq!(pipewire_node_id_from_dump(no_object_id, "n", "c"), Some(s("7")));
    let string_id = br#"[{"info": {"props": {"node.name": "n", "media.class": "c", "object.id": "x\"y"}}}]"#;
    assert_eq!(pipewire_node_id_from_dump(string_id, "n", "c"), Some(s("x\"y")));
    let array_id = br#"[{"info": {"props": {"node.name": "n", "media.class": "c", "object.id": [1, "a\n", null, true, {"k": false}]}}}]"#;
    assert_eq!(pipewire_node_id_from_dump(array_id, "n", "c"), Some(s("[1,\"a\\n\",null,true,{\"k\":false}]")));
    let missing_props = br#"[{"id": 1}, {"id": 2, "info": {"props": {"node.name": "n", "media.class": "c"}}}]"#;
    assert_eq!(pipewire_node_id_from_dump(missing_props, "n", "c"), None);
    assert_eq!(pipewire_node_id_from_dump(b"not json", "n", "c"), None);
    assert_eq!(pipewire_node_id_from_dump(b"{}", "n", "c"), None);
    let built = JsonValue::Array(vec![JsonValue::Object(vec![
        (s("id"), JsonValue::Number(s("5"))),
        (s("info"), JsonValue::Object(vec![(s("props"), JsonValue::Object(vec![
            (s("media.class"), JsonValue::Str(s("c"))),
            (s("node.name"), JsonValue::Str(s("n"))),
        ]))])),
    ])]);
    assert_eq!(node_id_in_dump(&built, "n", "c"), Some(s("5")));
}

#[test]
fn delayed_cleanup_schedule() {
    assert_eq!(cleanup_delays(false), vec![750, 2000, 5000]);
    assert!(cleanup_delays(true).is_empty());
    assert_eq!(cleanup_step(4, 4, 6), CleanupStep::Ensure { channels: 6 });
    assert_eq!(cleanup_step(5, 4, 6), CleanupStep::Stop);
}

#[test]
fn control_input_is_cut_at_line_feeds() {
    let (lines, rest) = control_lines("  {\"a\":1}  \n\n \t\n{\"b\":2}\n{\"c\"");
    assert_eq!(lines, strings(&["{\"a\":1}", "{\"b\":2}"]));
    assert_eq!(rest, "{\"c\"");
    let (lines, rest) = control_lines("partial");
    assert!(lines.is_empty());
    assert_eq!(rest, "partial");
    let (lines, rest) = control_lines("x\r\n");
    assert_eq!(lines, strings(&["x"]));
    assert_eq!(rest, "");
}

#[test]
fn session_commands() {
    let c = session_actions_command();
    assert_eq!(c.argv, strings(&["/usr/local/bin/arch-sunshine", "session-actions"]));
    assert_eq!(c.log, "session-actions.log");
    let c = sunshine_command();
    assert_eq!(c.argv, strings(&["/usr/local/bin/arch-sunshine-server", "serve"]));
    assert_eq!(c.log, "sunshine-wrapper.log");
}
