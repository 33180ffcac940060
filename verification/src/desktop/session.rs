//! Starting a desktop session: the settings it starts with, the files of a
//! previous session it removes, and the order of its start-up steps.
use vstd::prelude::*;
use crate::desktop::compositor::DesktopProcess;
use crate::desktop::control::{geometry_view, AudioState, StreamGeometry};
use crate::env_config::{
    default_audio_channels, default_audio_channels_spec, default_geometry, default_geometry_spec, positive_int_spec, refresh_rate_spec,
    resolve_session_scale, sanitize_positive_int, sanitize_refresh_rate, session_scale_spec,
    DisplayEnv,
};
use crate::lines::texts;
use crate::paths::{
    control_fifo_path, join_spec, path_join, CONTROL_FIFO_NAME, DEFAULT_FPS, DEFAULT_HEIGHT,
    DEFAULT_RUNTIME_DIR, DEFAULT_SOCKET, DEFAULT_WIDTH,
};
use crate::text::{nat_text, owned, push_str, u32_text};

verus! {

/// The settings a desktop session starts with (its time limits aside).
pub struct DesktopSettings {
    pub runtime_dir: String,
    pub socket: String,
    pub geometry: StreamGeometry,
    pub no_audio: bool,
    pub no_sunshine: bool,
    pub xwayland: bool,
}

/// The text of an option, or `default`.
pub open spec fn or_text(value: Option<String>, default: Seq<char>) -> Seq<char> {
    match value {
        Some(v) => v@,
        None => default,
    }
}

/// The session's geometry from the command line's values, each defaulting
/// to the environment's default geometry: sizes within `1..=8192` (else the
/// built-in defaults), a refresh rate within `(0, 240]` (else 60), and the
/// scale resolved for the size.
pub open spec fn session_geometry_spec(
    width: Option<String>,
    height: Option<String>,
    fps: Option<String>,
    scale: Option<String>,
    env: DisplayEnv,
) -> (u32, u32, Seq<char>, Seq<char>) {
    let (dw, dh, df, ds) = default_geometry_spec(env);
    let w = positive_int_spec(or_text(width, nat_text(dw as nat)), DEFAULT_WIDTH, 8192);
    let h = positive_int_spec(or_text(height, nat_text(dh as nat)), DEFAULT_HEIGHT, 8192);
    (w, h, refresh_rate_spec(or_text(fps, df), DEFAULT_FPS@), session_scale_spec(w, h, or_text(scale, ds)))
}

/// The text of an option, or a default string.
fn text_or(value: &Option<String>, default: String) -> (r: String)
    ensures
        r@ == or_text(*value, default@),
{
    match value {
        Some(v) => v.clone(),
        None => default,
    }
}

impl DesktopSettings {
    /// The settings from the command line's values: the runtime directory
    /// and socket default to `/run/user/1000` and the standard socket name,
    /// the geometry as `session_geometry_spec` states it.
    pub fn from_inputs(
        runtime_dir: Option<String>,
        socket: Option<String>,
        width: Option<String>,
        height: Option<String>,
        fps: Option<String>,
        scale: Option<String>,
        no_audio: bool,
        no_sunshine: bool,
        xwayland: bool,
        env: &DisplayEnv,
    ) -> (r: Self)
        ensures
            r.runtime_dir@ == or_text(runtime_dir, DEFAULT_RUNTIME_DIR@),
            r.socket@ == or_text(socket, DEFAULT_SOCKET@),
            geometry_view(r.geometry) == session_geometry_spec(width, height, fps, scale, *env),
            r.no_audio == no_audio,
            r.no_sunshine == no_sunshine,
            r.xwayland == xwayland,
    {
        let d = default_geometry(env);
        let w = sanitize_positive_int(text_or(&width, u32_text(d.width)).as_str(), DEFAULT_WIDTH, 8192);
        let h = sanitize_positive_int(text_or(&height, u32_text(d.height)).as_str(), DEFAULT_HEIGHT, 8192);
        let f = sanitize_refresh_rate(text_or(&fps, d.fps.clone()).as_str(), DEFAULT_FPS);
        let s = resolve_session_scale(w, h, text_or(&scale, d.scale.clone()).as_str());
        DesktopSettings {
            runtime_dir: text_or(&runtime_dir, owned(DEFAULT_RUNTIME_DIR)),
            socket: text_or(&socket, owned(DEFAULT_SOCKET)),
            geometry: StreamGeometry { width: w, height: h, fps: f, scale: s },
            no_audio,
            no_sunshine,
            xwayland,
        }
    }
}

/// The files of a previous session that a new one removes: the Wayland
/// socket, its lock, and the control channel.
pub fn session_stale_paths(runtime_dir: &str, socket: &str) -> (r: Vec<String>)
    ensures
        texts(r@) == seq![
            join_spec(runtime_dir@, socket@),
            join_spec(runtime_dir@, socket@ + ".lock"@),
            join_spec(runtime_dir@, CONTROL_FIFO_NAME@),
        ],
{
    let mut lock = owned(socket);
    push_str(&mut lock, ".lock");
    let mut paths: Vec<String> = Vec::new();
    paths.push(path_join(runtime_dir, socket));
    paths.push(path_join(runtime_dir, lock.as_str()));
    paths.push(control_fifo_path(Some(runtime_dir), None));
    assert(texts(paths@) =~= seq![
        join_spec(runtime_dir@, socket@),
        join_spec(runtime_dir@, socket@ + ".lock"@),
        join_spec(runtime_dir@, CONTROL_FIFO_NAME@),
    ]);
    paths
}

/// One step of starting a desktop session.
#[derive(Clone, Copy, Debug, PartialEq, Eq)]
pub enum SessionStep {
    PrepareFilesystem,
    StartChildReaper,
    StartInputWatcher,
    WriteWaylandConfig,
    StopPreviousSession,
    RemoveStalePaths,
    StartSessionBus,
    StartSystemBus,
    OpenControlChannel,
    StartNetworkStatus,
    StartSessionActions,
    WaitForShutdownService,
    WaitForLogoutPrompt,
    StartAudio,
    WriteInputFpsState,
    StartDesktopStack,
    StartSunshine,
    WaitForSunshine,
}

/// The steps of starting a session, in order; the audio stack only with
/// audio, and Sunshine only when it is wanted.
pub open spec fn session_steps_spec(no_audio: bool, no_sunshine: bool) -> Seq<SessionStep> {
    seq![
        SessionStep::PrepareFilesystem,
        SessionStep::StartChildReaper,
        SessionStep::StartInputWatcher,
        SessionStep::WriteWaylandConfig,
        SessionStep::StopPreviousSession,
        SessionStep::RemoveStalePaths,
        SessionStep::StartSessionBus,
        SessionStep::StartSystemBus,
        SessionStep::OpenControlChannel,
        SessionStep::StartNetworkStatus,
        SessionStep::StartSessionActions,
        SessionStep::WaitForShutdownService,
        SessionStep::WaitForLogoutPrompt,
    ] + (if no_audio {
        Seq::empty()
    } else {
        seq![SessionStep::StartAudio]
    }) + seq![SessionStep::WriteInputFpsState, SessionStep::StartDesktopStack] + (if no_sunshine {
        Seq::empty()
    } else {
        seq![SessionStep::StartSunshine, SessionStep::WaitForSunshine]
    })
}

/// The steps of starting a session, as `session_steps_spec` lists them.
pub fn start(no_audio: bool, no_sunshine: bool) -> (r: Vec<SessionStep>)
    ensures
        r@ == session_steps_spec(no_audio, no_sunshine),
{
    let mut steps = vec![
        SessionStep::PrepareFilesystem,
        SessionStep::StartChildReaper,
        SessionStep::StartInputWatcher,
        SessionStep::WriteWaylandConfig,
        SessionStep::StopPreviousSession,
        SessionStep::RemoveStalePaths,
        SessionStep::StartSessionBus,
        SessionStep::StartSystemBus,
        SessionStep::OpenControlChannel,
        SessionStep::StartNetworkStatus,
        SessionStep::StartSessionActions,
        SessionStep::WaitForShutdownService,
        SessionStep::WaitForLogoutPrompt,
    ];
    if !no_audio {
        steps.push(SessionStep::StartAudio);
    }
    steps.push(SessionStep::WriteInputFpsState);
    steps.push(SessionStep::StartDesktopStack);
    if !no_sunshine {
        steps.push(SessionStep::StartSunshine);
        steps.push(SessionStep::WaitForSunshine);
    }
    assert(steps@ =~= session_steps_spec(no_audio, no_sunshine));
    steps
}

/// A command a start-up step runs, with the log it writes to.
pub struct SessionCommand {
    pub argv: Vec<String>,
    pub log: String,
}

/// The command of `StartSessionActions`: the runtime's session action
/// service, logging to `session-actions.log`.
pub fn session_actions_command() -> (r: SessionCommand)
    ensures
        texts(r.argv@) == seq!["/usr/local/bin/arch-sunshine"@, "session-actions"@],
        r.log@ == "session-actions.log"@,
{
    let argv = vec![owned("/usr/local/bin/arch-sunshine"), owned("session-actions")];
    assert(texts(argv@) =~= seq!["/usr/local/bin/arch-sunshine"@, "session-actions"@]);
    SessionCommand { argv, log: owned("session-actions.log") }
}

/// The command of `StartSunshine`: the Sunshine server wrapper, logging to
/// `sunshine-wrapper.log`.
pub fn sunshine_command() -> (r: SessionCommand)
    ensures
        texts(r.argv@) == seq!["/usr/local/bin/arch-sunshine-server"@, "serve"@],
        r.log@ == "sunshine-wrapper.log"@,
{
    let argv = vec![owned("/usr/local/bin/arch-sunshine-server"), owned("serve")];
    assert(texts(argv@) =~= seq!["/usr/local/bin/arch-sunshine-server"@, "serve"@]);
    SessionCommand { argv, log: owned("sunshine-wrapper.log") }
}

/// The message when a waiting step times out.
pub fn session_timeout_message(step: SessionStep) -> (r: Option<&'static str>)
    ensures
        match step {
            SessionStep::WaitForShutdownService => r matches Some(m) && m@ == "timed out waiting for session action service"@,
            SessionStep::WaitForLogoutPrompt => r matches Some(m) && m@ == "timed out waiting for logout prompt service"@,
            SessionStep::WaitForSunshine => r matches Some(m) && m@ == "timed out waiting for Sunshine on TCP port 47989"@,
            _ => r is None,
        },
{
    match step {
        SessionStep::WaitForShutdownService => Some("timed out waiting for session action service"),
        SessionStep::WaitForLogoutPrompt => Some("timed out waiting for logout prompt service"),
        SessionStep::WaitForSunshine => Some("timed out waiting for Sunshine on TCP port 47989"),
        _ => None,
    }
}

/// A bus daemon's process id as reported: `None` when it reported none.
pub fn optional_pid(pid: &str) -> (r: Option<String>)
    ensures
        match r {
            Some(p) => pid@.len() > 0 && p@ == pid@,
            None => pid@.len() == 0,
        },
{
    let c = crate::text::chars_of(pid);
    if c.len() == 0 {
        None
    } else {
        Some(owned(pid))
    }
}

/// The session-level processes a start-up step keeps in their slots once it
/// has succeeded: the session actions once both their services answer, the
/// audio stack once it has started, and Sunshine once its port answers.
pub open spec fn session_step_keeps(step: SessionStep) -> Seq<DesktopProcess> {
    match step {
        SessionStep::WaitForLogoutPrompt => seq![DesktopProcess::SessionActions],
        SessionStep::StartAudio => seq![
            DesktopProcess::Pipewire,
            DesktopProcess::Wireplumber,
            DesktopProcess::Pulse,
        ],
        SessionStep::WaitForSunshine => seq![DesktopProcess::Sunshine],
        _ => Seq::empty(),
    }
}

/// The session-level processes the steps keep, in order.
pub open spec fn session_kept_by(steps: Seq<SessionStep>) -> Seq<DesktopProcess>
    decreases steps.len(),
{
    if steps.len() == 0 {
        Seq::empty()
    } else {
        session_kept_by(steps.drop_last()) + session_step_keeps(steps.last())
    }
}

/// The session-level processes a started session keeps: the session
/// actions, the audio stack unless audio is off, and Sunshine unless it is
/// off.
pub open spec fn session_kept_spec(no_audio: bool, no_sunshine: bool) -> Seq<DesktopProcess> {
    seq![DesktopProcess::SessionActions] + (if no_audio {
        Seq::empty()
    } else {
        seq![DesktopProcess::Pipewire, DesktopProcess::Wireplumber, DesktopProcess::Pulse]
    }) + (if no_sunshine {
        Seq::empty()
    } else {
        seq![DesktopProcess::Sunshine]
    })
}

/// The state a session holds once it has started.
pub struct SessionState {
    /// The stream's geometry.
    pub geometry: StreamGeometry,
    /// The audio channel count and the generation of audio requests.
    pub audio: AudioState,
    /// The control channel is open.
    pub control_open: bool,
    /// The session-level processes kept, in the order they were kept.
    pub kept: Vec<DesktopProcess>,
}

proof fn lemma_kept_by_concat(a: Seq<SessionStep>, b: Seq<SessionStep>)
    ensures
        session_kept_by(a + b) == session_kept_by(a) + session_kept_by(b),
    decreases b.len(),
{
    if b.len() == 0 {
        assert(a + b =~= a);
        assert(session_kept_by(a) + session_kept_by(b) =~= session_kept_by(a));
    } else {
        lemma_kept_by_concat(a, b.drop_last());
        assert((a + b).drop_last() =~= a + b.drop_last());
        assert((a + b).last() == b.last());
        assert(session_kept_by(a) + session_kept_by(b) =~= session_kept_by(a)
            + session_kept_by(b.drop_last()) + session_step_keeps(b.last()));
    }
}

proof fn lemma_kept_by_none(s: Seq<SessionStep>)
    requires
        forall|i: int| 0 <= i < s.len() ==> session_step_keeps(#[trigger] s[i]).len() == 0,
    ensures
        session_kept_by(s) =~= Seq::<DesktopProcess>::empty(),
    decreases s.len(),
{
    if s.len() > 0 {
        assert(s.last() == s[s.len() - 1]);
        lemma_kept_by_none(s.drop_last());
    }
}

proof fn lemma_kept_by_one(x: SessionStep)
    ensures
        session_kept_by(seq![x]) =~= session_step_keeps(x),
{
    let one = seq![x];
    assert(one.drop_last() =~= Seq::<SessionStep>::empty());
    assert(one.last() == x);
    assert(session_kept_by(one.drop_last()) == Seq::<DesktopProcess>::empty());
    assert(session_kept_by(one) == session_kept_by(one.drop_last()) + session_step_keeps(x));
    assert(Seq::<DesktopProcess>::empty() + session_step_keeps(x) =~= session_step_keeps(x));
}

/// The steps of `session_steps_spec` keep the processes of
/// `session_kept_spec`, and open the control channel.
pub proof fn lemma_session_keeps(no_audio: bool, no_sunshine: bool)
    ensures
        session_kept_by(session_steps_spec(no_audio, no_sunshine)) == session_kept_spec(
            no_audio,
            no_sunshine,
        ),
        session_steps_spec(no_audio, no_sunshine)[8] == SessionStep::OpenControlChannel,
{
    let head = seq![
        SessionStep::PrepareFilesystem,
        SessionStep::StartChildReaper,
        SessionStep::StartInputWatcher,
        SessionStep::WriteWaylandConfig,
        SessionStep::StopPreviousSession,
        SessionStep::RemoveStalePaths,
        SessionStep::StartSessionBus,
        SessionStep::StartSystemBus,
        SessionStep::OpenControlChannel,
        SessionStep::StartNetworkStatus,
        SessionStep::StartSessionActions,
        SessionStep::WaitForShutdownService,
        SessionStep::WaitForLogoutPrompt,
    ];
    let audio: Seq<SessionStep> = if no_audio {
        Seq::empty()
    } else {
        seq![SessionStep::StartAudio]
    };
    let mid = seq![SessionStep::WriteInputFpsState, SessionStep::StartDesktopStack];
    let tail: Seq<SessionStep> = if no_sunshine {
        Seq::empty()
    } else {
        seq![SessionStep::StartSunshine, SessionStep::WaitForSunshine]
    };
    assert(session_steps_spec(no_audio, no_sunshine) == head + audio + mid + tail);
    lemma_kept_by_concat(head + audio + mid, tail);
    lemma_kept_by_concat(head + audio, mid);
    lemma_kept_by_concat(head, audio);
    let head12 = head.drop_last();
    assert(head =~= head12 + seq![SessionStep::WaitForLogoutPrompt]);
    lemma_kept_by_concat(head12, seq![SessionStep::WaitForLogoutPrompt]);
    lemma_kept_by_none(head12);
    lemma_kept_by_one(SessionStep::WaitForLogoutPrompt);
    assert(session_kept_by(head) =~= seq![DesktopProcess::SessionActions]);
    lemma_kept_by_none(mid);
    if no_audio {
        lemma_kept_by_none(audio);
    } else {
        lemma_kept_by_one(SessionStep::StartAudio);
    }
    if no_sunshine {
        lemma_kept_by_none(tail);
    } else {
        lemma_kept_by_concat(seq![SessionStep::StartSunshine], seq![SessionStep::WaitForSunshine]);
        assert(tail =~= seq![SessionStep::StartSunshine] + seq![SessionStep::WaitForSunshine]);
        lemma_kept_by_one(SessionStep::StartSunshine);
        lemma_kept_by_one(SessionStep::WaitForSunshine);
        assert(session_kept_by(tail) =~= seq![DesktopProcess::Sunshine]);
    }
    assert(session_kept_spec(no_audio, no_sunshine) =~= session_kept_by(head) + session_kept_by(
        audio,
    ) + session_kept_by(mid) + session_kept_by(tail));
}

/// The state a session starts with: the geometry of its settings, the
/// environment's default audio channel count, audio generation zero, the
/// control channel open, and the processes its start-up steps keep, so
/// Sunshine exactly when it is not turned off and the audio stack exactly
/// when audio is not turned off.
pub fn initial_session_state(settings: &DesktopSettings, env: &DisplayEnv) -> (r: SessionState)
    ensures
        geometry_view(r.geometry) == geometry_view(settings.geometry),
        r.audio.channels == default_audio_channels_spec(*env),
        r.audio.generation == 0,
        r.control_open,
        r.kept@ == session_kept_by(session_steps_spec(settings.no_audio, settings.no_sunshine)),
        r.kept@ == session_kept_spec(settings.no_audio, settings.no_sunshine),
        r.kept@.contains(DesktopProcess::Sunshine) <==> !settings.no_sunshine,
        r.kept@.contains(DesktopProcess::Pipewire) <==> !settings.no_audio,
{
    let mut kept: Vec<DesktopProcess> = Vec::new();
    kept.push(DesktopProcess::SessionActions);
    if !settings.no_audio {
        kept.push(DesktopProcess::Pipewire);
        kept.push(DesktopProcess::Wireplumber);
        kept.push(DesktopProcess::Pulse);
    }
    if !settings.no_sunshine {
        kept.push(DesktopProcess::Sunshine);
    }
    proof {
        lemma_session_keeps(settings.no_audio, settings.no_sunshine);
        let k = session_kept_spec(settings.no_audio, settings.no_sunshine);
        assert(kept@ =~= k);
        if !settings.no_sunshine {
            assert(k[k.len() - 1] == DesktopProcess::Sunshine);
        } else {
            assert(forall|i: int| 0 <= i < k.len() ==> k[i] != DesktopProcess::Sunshine);
        }
        if !settings.no_audio {
            assert(k[1] == DesktopProcess::Pipewire);
        } else {
            assert(forall|i: int| 0 <= i < k.len() ==> k[i] != DesktopProcess::Pipewire);
        }
    }
    SessionState {
        geometry: StreamGeometry {
            width: settings.geometry.width,
            height: settings.geometry.height,
            fps: settings.geometry.fps.clone(),
            scale: settings.geometry.scale.clone(),
        },
        audio: AudioState { channels: default_audio_channels(env), generation: 0 },
        control_open: true,
        kept,
    }
}

/// The desktop stack starts after the session bus and the audio stack, and
/// Sunshine starts last.
pub proof fn law_session_order(no_audio: bool, no_sunshine: bool)
    ensures
        ({
            let steps = session_steps_spec(no_audio, no_sunshine);
            let stack = if no_audio { 14int } else { 15int };
            &&& steps[stack] == SessionStep::StartDesktopStack
            &&& steps[6] == SessionStep::StartSessionBus
            &&& !no_audio ==> steps[13] == SessionStep::StartAudio
            &&& !no_sunshine ==> steps.last() == SessionStep::WaitForSunshine && steps[steps.len() - 2]
                == SessionStep::StartSunshine
        }),
{
}

} // verus!
