//! The order in which the desktop stack (KWin, kded, the activity manager,
//! Plasma's shell and the portals) is started and stopped, as steps that
//! the caller performs one after the other.
use vstd::prelude::*;
use crate::desktop::control::{geometry_view, StreamGeometry};
use crate::desktop::kde_config::{build_kwin_command, kwin_command_spec};
use crate::lines::texts;
use crate::text::owned;

verus! {

/// The long-running processes of a desktop session.
#[derive(Clone, Copy, Debug, PartialEq, Eq)]
pub enum DesktopProcess {
    NetworkStatus,
    SessionActions,
    Pipewire,
    Wireplumber,
    Pulse,
    Kwin,
    Kded,
    Activities,
    Plasmashell,
    PortalBackend,
    Portal,
    Sunshine,
}

/// One step of starting the desktop stack.
pub enum StackStep {
    /// Remove the Wayland socket and its lock.
    RemoveStaleSocket,
    /// Write the display scale settings (`live`: also rescale outputs).
    WriteScale { live: bool },
    /// Write the session settings of a streaming desktop.
    WriteSessionTweaks,
    /// Remove KDE's service cache.
    ClearServiceCache,
    /// Start a process as the desktop user, logging to `log`.
    Start { process: DesktopProcess, argv: Vec<String>, log: String },
    /// Keep the process started last in its slot: it is ready.
    Keep { process: DesktopProcess },
    /// Wait for KWin's Wayland socket.
    WaitForSocket,
    /// Wait for a name on the session bus.
    WaitForBusName { name: String },
    /// Wait for a process of the desktop user by name.
    WaitForProcess { name: String },
    /// Run a command as the desktop user, ignoring its output.
    RunQuiet { argv: Vec<String> },
    /// Run a command as the desktop user, appending its output to `log`.
    RunLogged { argv: Vec<String>, log: String },
    /// Configure Plasma's launchers.
    ConfigureLaunchers,
    /// Make the stream's sink the default.
    SetAudioDefaults,
}

/// A step as plain values.
pub enum StepView {
    RemoveStaleSocket,
    WriteScale(bool),
    WriteSessionTweaks,
    ClearServiceCache,
    Start(DesktopProcess, Seq<Seq<char>>, Seq<char>),
    Keep(DesktopProcess),
    WaitForSocket,
    WaitForBusName(Seq<char>),
    WaitForProcess(Seq<char>),
    RunQuiet(Seq<Seq<char>>),
    RunLogged(Seq<Seq<char>>, Seq<char>),
    ConfigureLaunchers,
    SetAudioDefaults,
}

/// A step as plain values.
pub open spec fn step_view(s: StackStep) -> StepView {
    match s {
        StackStep::RemoveStaleSocket => StepView::RemoveStaleSocket,
        StackStep::WriteScale { live } => StepView::WriteScale(live),
        StackStep::WriteSessionTweaks => StepView::WriteSessionTweaks,
        StackStep::ClearServiceCache => StepView::ClearServiceCache,
        StackStep::Start { process, argv, log } => StepView::Start(process, texts(argv@), log@),
        StackStep::Keep { process } => StepView::Keep(process),
        StackStep::WaitForSocket => StepView::WaitForSocket,
        StackStep::WaitForBusName { name } => StepView::WaitForBusName(name@),
        StackStep::WaitForProcess { name } => StepView::WaitForProcess(name@),
        StackStep::RunQuiet { argv } => StepView::RunQuiet(texts(argv@)),
        StackStep::RunLogged { argv, log } => StepView::RunLogged(texts(argv@), log@),
        StackStep::ConfigureLaunchers => StepView::ConfigureLaunchers,
        StackStep::SetAudioDefaults => StepView::SetAudioDefaults,
    }
}

/// The steps as plain values.
pub open spec fn steps_view(steps: Seq<StackStep>) -> Seq<StepView> {
    steps.map_values(|s: StackStep| step_view(s))
}

/// The steps that start the desktop stack for a geometry, in order: clean
/// the socket, write the scale and session settings, start KWin, wait for
/// its socket and only then keep it, rescale live, update the user
/// directories and the service cache, start and keep kded, start the
/// activity manager (when there is one), wait for it on the bus and keep it,
/// start Plasma's shell, wait for it and keep it, configure the launchers and
/// the audio defaults, and start and keep the portals.
pub open spec fn stack_steps_spec(
    socket: Seq<char>,
    xwayland: bool,
    g: (u32, u32, Seq<char>, Seq<char>),
    activity_manager: Option<Seq<Seq<char>>>,
) -> Seq<StepView> {
    seq![
        StepView::RemoveStaleSocket,
        StepView::WriteScale(false),
        StepView::WriteSessionTweaks,
        StepView::ClearServiceCache,
        StepView::Start(DesktopProcess::Kwin, kwin_command_spec(socket, xwayland, g.0, g.1, g.3), "kwin-wayland.log"@),
        StepView::WaitForSocket,
        StepView::Keep(DesktopProcess::Kwin),
        StepView::WriteScale(true),
        StepView::RunQuiet(seq!["xdg-user-dirs-update"@]),
        StepView::RunLogged(seq!["kbuildsycoca6"@, "--noincremental"@], "kbuildsycoca.log"@),
        StepView::Start(DesktopProcess::Kded, seq!["kded6"@], "kded6.log"@),
        StepView::Keep(DesktopProcess::Kded),
    ] + match activity_manager {
        Some(argv) => seq![
            StepView::Start(DesktopProcess::Activities, argv, "kactivitymanagerd.log"@),
            StepView::WaitForBusName("org.kde.ActivityManager"@),
            StepView::Keep(DesktopProcess::Activities),
        ],
        None => Seq::empty(),
    } + seq![
        StepView::Start(DesktopProcess::Plasmashell, seq!["plasmashell"@, "--no-respawn"@], "plasmashell.log"@),
        StepView::WaitForProcess("plasmashell"@),
        StepView::Keep(DesktopProcess::Plasmashell),
        StepView::ConfigureLaunchers,
        StepView::SetAudioDefaults,
        StepView::Start(DesktopProcess::PortalBackend, seq!["/usr/lib/xdg-desktop-portal-kde"@], "xdg-desktop-portal-kde.log"@),
        StepView::Keep(DesktopProcess::PortalBackend),
        StepView::Start(DesktopProcess::Portal, seq!["/usr/lib/xdg-desktop-portal"@], "xdg-desktop-portal.log"@),
        StepView::Keep(DesktopProcess::Portal),
    ]
}

/// A command line of one word.
fn argv1(a: &str) -> (r: Vec<String>)
    ensures
        texts(r@) == seq![a@],
{
    let mut v: Vec<String> = Vec::new();
    v.push(owned(a));
    assert(texts(v@) =~= seq![a@]);
    v
}

/// A command line of two words.
fn argv2(a: &str, b: &str) -> (r: Vec<String>)
    ensures
        texts(r@) == seq![a@, b@],
{
    let mut v: Vec<String> = Vec::new();
    v.push(owned(a));
    v.push(owned(b));
    assert(texts(v@) =~= seq![a@, b@]);
    v
}

/// Appends a step.
fn push_step(steps: &mut Vec<StackStep>, s: StackStep)
    ensures
        steps_view(final(steps)@) == steps_view(old(steps)@).push(step_view(s)),
{
    let ghost before = steps_view(steps@);
    let ghost v = step_view(s);
    steps.push(s);
    assert(steps_view(steps@) =~= before.push(v));
}

/// The steps that start the desktop stack, as `stack_steps_spec` lists them.
pub fn start_desktop_stack(
    socket: &str,
    xwayland: bool,
    geometry: &StreamGeometry,
    activity_manager: Option<Vec<String>>,
) -> (r: Vec<StackStep>)
    ensures
        steps_view(r@) == stack_steps_spec(
            socket@,
            xwayland,
            geometry_view(*geometry),
            match activity_manager {
                Some(a) => Some(texts(a@)),
                None => None,
            },
        ),
        kept_processes(steps_view(r@)) == stack_kept_spec(activity_manager is Some),
        steps_view(r@)[4] == StepView::Start(
            DesktopProcess::Kwin,
            kwin_command_spec(socket@, xwayland, geometry.width, geometry.height, geometry.scale@),
            "kwin-wayland.log"@,
        ),
        steps_view(r@)[5] == StepView::WaitForSocket,
        steps_view(r@)[6] == StepView::Keep(DesktopProcess::Kwin),
{
    let mut steps: Vec<StackStep> = Vec::new();
    push_step(&mut steps, StackStep::RemoveStaleSocket);
    push_step(&mut steps, StackStep::WriteScale { live: false });
    push_step(&mut steps, StackStep::WriteSessionTweaks);
    push_step(&mut steps, StackStep::ClearServiceCache);
    let kwin = build_kwin_command(socket, xwayland, geometry.width, geometry.height, geometry.scale.as_str());
    push_step(&mut steps, StackStep::Start { process: DesktopProcess::Kwin, argv: kwin, log: owned("kwin-wayland.log") });
    push_step(&mut steps, StackStep::WaitForSocket);
    push_step(&mut steps, StackStep::Keep { process: DesktopProcess::Kwin });
    push_step(&mut steps, StackStep::WriteScale { live: true });
    push_step(&mut steps, StackStep::RunQuiet { argv: argv1("xdg-user-dirs-update") });
    push_step(&mut steps, StackStep::RunLogged { argv: argv2("kbuildsycoca6", "--noincremental"), log: owned("kbuildsycoca.log") });
    push_step(&mut steps, StackStep::Start { process: DesktopProcess::Kded, argv: argv1("kded6"), log: owned("kded6.log") });
    push_step(&mut steps, StackStep::Keep { process: DesktopProcess::Kded });
    let ghost head = steps_view(steps@);
    let ghost am = match &activity_manager {
        Some(a) => Some(texts(a@)),
        None => None,
    };
    match activity_manager {
        Some(argv) => {
            push_step(&mut steps, StackStep::Start { process: DesktopProcess::Activities, argv, log: owned("kactivitymanagerd.log") });
            push_step(&mut steps, StackStep::WaitForBusName { name: owned("org.kde.ActivityManager") });
            push_step(&mut steps, StackStep::Keep { process: DesktopProcess::Activities });
        },
        None => {},
    }
    let ghost mid = steps_view(steps@);
    push_step(&mut steps, StackStep::Start { process: DesktopProcess::Plasmashell, argv: argv2("plasmashell", "--no-respawn"), log: owned("plasmashell.log") });
    push_step(&mut steps, StackStep::WaitForProcess { name: owned("plasmashell") });
    push_step(&mut steps, StackStep::Keep { process: DesktopProcess::Plasmashell });
    push_step(&mut steps, StackStep::ConfigureLaunchers);
    push_step(&mut steps, StackStep::SetAudioDefaults);
    push_step(&mut steps, StackStep::Start { process: DesktopProcess::PortalBackend, argv: argv1("/usr/lib/xdg-desktop-portal-kde"), log: owned("xdg-desktop-portal-kde.log") });
    push_step(&mut steps, StackStep::Keep { process: DesktopProcess::PortalBackend });
    push_step(&mut steps, StackStep::Start { process: DesktopProcess::Portal, argv: argv1("/usr/lib/xdg-desktop-portal"), log: owned("xdg-desktop-portal.log") });
    push_step(&mut steps, StackStep::Keep { process: DesktopProcess::Portal });
    assert(steps_view(steps@) =~= stack_steps_spec(socket@, xwayland, geometry_view(*geometry), am));
    proof {
        lemma_stack_kept(socket@, xwayland, geometry_view(*geometry), am);
    }
    steps
}

/// The message when a waited-for step of the stack times out.
pub fn stack_timeout_message(step: &StackStep, socket_path: &str) -> (r: Option<String>)
    ensures
        match step_view(*step) {
            StepView::WaitForSocket => r matches Some(m) && m@ == "timed out waiting for KWin Wayland socket: "@ + socket_path@,
            StepView::WaitForBusName(_) => r matches Some(m) && m@ == "timed out waiting for kactivitymanagerd"@,
            StepView::WaitForProcess(_) => r matches Some(m) && m@ == "timed out waiting for plasmashell"@,
            _ => r is None,
        },
{
    match step {
        StackStep::WaitForSocket => {
            let mut m = owned("timed out waiting for KWin Wayland socket: ");
            crate::text::push_str(&mut m, socket_path);
            Some(m)
        },
        StackStep::WaitForBusName { .. } => Some(owned("timed out waiting for kactivitymanagerd")),
        StackStep::WaitForProcess { .. } => Some(owned("timed out waiting for plasmashell")),
        _ => None,
    }
}

/// The order in which a session's processes are stopped: Sunshine, the
/// portals, Plasma's shell, the activity manager, kded, KWin, the audio
/// stack from the top, the session actions and the network status.
pub open spec fn shutdown_order_spec() -> Seq<DesktopProcess> {
    seq![
        DesktopProcess::Sunshine,
        DesktopProcess::Portal,
        DesktopProcess::PortalBackend,
        DesktopProcess::Plasmashell,
        DesktopProcess::Activities,
        DesktopProcess::Kded,
        DesktopProcess::Kwin,
        DesktopProcess::Pulse,
        DesktopProcess::Wireplumber,
        DesktopProcess::Pipewire,
        DesktopProcess::SessionActions,
        DesktopProcess::NetworkStatus,
    ]
}

/// The order in which a session's processes are stopped.
pub fn shutdown_order() -> (r: Vec<DesktopProcess>)
    ensures
        r@ == shutdown_order_spec(),
{
    let r = vec![
        DesktopProcess::Sunshine,
        DesktopProcess::Portal,
        DesktopProcess::PortalBackend,
        DesktopProcess::Plasmashell,
        DesktopProcess::Activities,
        DesktopProcess::Kded,
        DesktopProcess::Kwin,
        DesktopProcess::Pulse,
        DesktopProcess::Wireplumber,
        DesktopProcess::Pipewire,
        DesktopProcess::SessionActions,
        DesktopProcess::NetworkStatus,
    ];
    assert(r@ =~= shutdown_order_spec());
    r
}

/// The processes of the desktop stack, in the order they are stopped when
/// the stream's geometry changes.
pub open spec fn stop_order_spec() -> Seq<DesktopProcess> {
    seq![
        DesktopProcess::Portal,
        DesktopProcess::PortalBackend,
        DesktopProcess::Plasmashell,
        DesktopProcess::Activities,
        DesktopProcess::Kded,
        DesktopProcess::Kwin,
    ]
}

/// The processes of the desktop stack, in the order they are stopped.
pub fn stop_desktop_stack() -> (r: Vec<DesktopProcess>)
    ensures
        r@ == stop_order_spec(),
{
    let r = vec![
        DesktopProcess::Portal,
        DesktopProcess::PortalBackend,
        DesktopProcess::Plasmashell,
        DesktopProcess::Activities,
        DesktopProcess::Kded,
        DesktopProcess::Kwin,
    ];
    assert(r@ =~= stop_order_spec());
    r
}

/// The processes that the steps keep in their slots, in order.
pub open spec fn kept_processes(steps: Seq<StepView>) -> Seq<DesktopProcess>
    decreases steps.len(),
{
    if steps.len() == 0 {
        Seq::empty()
    } else {
        let rest = kept_processes(steps.drop_last());
        match steps.last() {
            StepView::Keep(p) => rest.push(p),
            _ => rest,
        }
    }
}

/// The processes the desktop stack keeps, in order: KWin, kded, the
/// activity manager when there is one, Plasma's shell and the two portals.
pub open spec fn stack_kept_spec(with_activities: bool) -> Seq<DesktopProcess> {
    seq![DesktopProcess::Kwin, DesktopProcess::Kded] + (if with_activities {
        seq![DesktopProcess::Activities]
    } else {
        Seq::empty()
    }) + seq![DesktopProcess::Plasmashell, DesktopProcess::PortalBackend, DesktopProcess::Portal]
}

proof fn lemma_kept_concat(a: Seq<StepView>, b: Seq<StepView>)
    ensures
        kept_processes(a + b) == kept_processes(a) + kept_processes(b),
    decreases b.len(),
{
    if b.len() == 0 {
        assert(a + b =~= a);
        assert(kept_processes(a) + kept_processes(b) =~= kept_processes(a));
    } else {
        lemma_kept_concat(a, b.drop_last());
        assert((a + b).drop_last() =~= a + b.drop_last());
        assert((a + b).last() == b.last());
        match b.last() {
            StepView::Keep(p) => {
                assert(kept_processes(a) + kept_processes(b) =~= (kept_processes(a)
                    + kept_processes(b.drop_last())).push(p));
            },
            _ => {},
        }
    }
}

/// The processes the steps of `stack_steps_spec` keep.
proof fn lemma_stack_kept(
    socket: Seq<char>,
    xwayland: bool,
    g: (u32, u32, Seq<char>, Seq<char>),
    activity_manager: Option<Seq<Seq<char>>>,
)
    ensures
        kept_processes(stack_steps_spec(socket, xwayland, g, activity_manager)) == stack_kept_spec(
            activity_manager is Some,
        ),
{
    let all = stack_steps_spec(socket, xwayland, g, activity_manager);
    let head = all.take(12);
    let mid = match activity_manager {
        Some(argv) => seq![
            StepView::Start(DesktopProcess::Activities, argv, "kactivitymanagerd.log"@),
            StepView::WaitForBusName("org.kde.ActivityManager"@),
            StepView::Keep(DesktopProcess::Activities),
        ],
        None => Seq::<StepView>::empty(),
    };
    let tail = all.skip(12 + mid.len() as int);
    assert(all =~= head + mid + tail);
    lemma_kept_concat(head + mid, tail);
    lemma_kept_concat(head, mid);
    reveal_with_fuel(kept_processes, 13);
    assert(kept_processes(head) =~= seq![DesktopProcess::Kwin, DesktopProcess::Kded]);
    assert(kept_processes(tail) =~= seq![
        DesktopProcess::Plasmashell,
        DesktopProcess::PortalBackend,
        DesktopProcess::Portal,
    ]);
    if activity_manager is Some {
        assert(kept_processes(mid) =~= seq![DesktopProcess::Activities]);
    } else {
        assert(kept_processes(mid) =~= Seq::<DesktopProcess>::empty());
    }
}

/// The stack is stopped in the reverse of the order it keeps its processes.
pub proof fn law_stack_stops_in_reverse(
    socket: Seq<char>,
    xwayland: bool,
    g: (u32, u32, Seq<char>, Seq<char>),
    activity_manager: Seq<Seq<char>>,
)
    ensures
        kept_processes(stack_steps_spec(socket, xwayland, g, Some(activity_manager))).reverse()
            == stop_order_spec(),
{
    lemma_stack_kept(socket, xwayland, g, Some(activity_manager));
    assert(stack_kept_spec(true).reverse() =~= stop_order_spec());
}

/// The stack's processes stop in the same order within a whole shutdown.
pub proof fn law_stack_stop_matches_shutdown()
    ensures
        stop_order_spec() == shutdown_order_spec().subrange(1, 7),
{
    assert(stop_order_spec() =~= shutdown_order_spec().subrange(1, 7));
}

} // verus!
