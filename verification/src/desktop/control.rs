//! How the desktop answers the stream's client: a client that starts asks
//! for a geometry and a channel count, a client that stops returns the
//! desktop to its defaults. Each message moves the audio state on and asks
//! for a stream geometry; a geometry that KWin already shows only changes
//! the refresh rate, any other restarts the desktop stack.
use vstd::prelude::*;
use crate::decimal::divided_extent;
use crate::env_config::{
    audio_channels_spec, kwin_virtual_geometry, refresh_rate_spec, sanitize_audio_channels,
    sanitize_refresh_rate, scale_value_spec, unit_scale,
};
use crate::paths::DEFAULT_FPS;
use crate::desktop::dbus_bus::nonblank_lines;
use crate::lines::{split_at_char, split_spec, texts};
use crate::text::{chars_of, nat_text, owned, str_eq, trim, trim_spec, u32_text};

verus! {

/// The stream's geometry: size in pixels, refresh rate and scale, as text.
pub struct StreamGeometry {
    pub width: u32,
    pub height: u32,
    pub fps: String,
    pub scale: String,
}

/// A geometry as plain values.
pub open spec fn geometry_view(g: StreamGeometry) -> (u32, u32, Seq<char>, Seq<char>) {
    (g.width, g.height, g.fps@, g.scale@)
}

/// A message on the control channel. The refresh rate and the scale come
/// as text (a JSON number is written in JSON).
pub enum ControlMessage {
    ClientStart {
        width: u32,
        height: u32,
        fps: String,
        scale: String,
        audio_channels: Option<u32>,
        ack: Option<String>,
    },
    ClientStop { audio_channels: Option<u32> },
}

/// The audio state: the channel count of the client, and a counter that
/// every message moves on, so that delayed sink cleanups of an older
/// message stand down.
pub struct AudioState {
    pub channels: u32,
    pub generation: u64,
}

/// What a message asks of the desktop.
pub struct ControlPlan {
    /// The channel count the sink is made for.
    pub channels: u32,
    /// The generation the delayed sink cleanups belong to.
    pub generation: u64,
    /// The client asked for another channel count than before.
    pub channels_changed: bool,
    /// The geometry the stream is switched to.
    pub geometry: StreamGeometry,
    /// Why the geometry changes.
    pub reason: String,
    /// Where to confirm that the geometry was applied.
    pub ack: Option<String>,
    /// Whether the delayed cleanups are scheduled before the geometry is
    /// applied (on stop) rather than after it (on start).
    pub cleanup_first: bool,
}

/// The channel count a starting client gets: its request, else the default,
/// kept only when it is 2, 6 or 8, else the default.
pub open spec fn start_channels(requested: Option<u32>, default_channels: u32) -> u32 {
    let wanted = match requested {
        Some(c) => c,
        None => default_channels,
    };
    audio_channels_spec(nat_text(wanted as nat), default_channels)
}

/// The control input cut at line feeds: every complete line, trimmed, with
/// blank ones left out, and the unfinished text after the last line feed.
pub fn control_lines(buffer: &str) -> (r: (Vec<String>, String))
    ensures
        texts(r.0@) == nonblank_lines(split_spec(buffer@, '\n').drop_last()),
        split_spec(buffer@, '\n').len() > 0,
        r.1@ == split_spec(buffer@, '\n').last(),
{
    let pieces = split_at_char(buffer, '\n');
    let ghost ps = texts(pieces@);
    proof {
        crate::lines::lemma_first_of_bounds(buffer@, '\n', '\n');
    }
    assert(ps.len() > 0);
    let last = pieces.len() - 1;
    let mut out: Vec<String> = Vec::new();
    let mut i: usize = 0;
    while i < last
        invariant
            i <= last,
            last == pieces@.len() - 1,
            ps == texts(pieces@),
            texts(out@) == nonblank_lines(ps.drop_last().take(i as int)),
        decreases last - i,
    {
        assert(ps.drop_last().take(i + 1).drop_last() =~= ps.drop_last().take(i as int));
        assert(ps.drop_last().take(i + 1).last() == ps[i as int]);
        let t = trim(pieces[i].as_str());
        if chars_of(t.as_str()).len() > 0 {
            let ghost before = texts(out@);
            out.push(t);
            assert(texts(out@) =~= before.push(trim_spec(ps[i as int])));
        }
        i = i + 1;
    }
    assert(ps.drop_last().take(last as int) =~= ps.drop_last());
    let rest = owned(pieces[last].as_str());
    (out, rest)
}

/// The next generation (wrapping like an atomic counter).
pub open spec fn next_generation(g: u64) -> u64 {
    if g == u64::MAX {
        0
    } else {
        (g + 1) as u64
    }
}

/// Moves the audio state on for a message and says what the desktop does:
/// a start takes the client's channel count and geometry, a stop keeps the
/// channel count and asks for the default geometry.
pub fn plan_control(
    msg: &ControlMessage,
    audio: &mut AudioState,
    default_channels: u32,
    default_geometry: &StreamGeometry,
) -> (r: ControlPlan)
    ensures
        final(audio).generation == next_generation(old(audio).generation),
        r.generation == final(audio).generation,
        r.channels == final(audio).channels,
        match *msg {
            ControlMessage::ClientStart { width, height, fps, scale, audio_channels, ack } => {
                &&& final(audio).channels == start_channels(audio_channels, default_channels)
                &&& r.channels_changed == (final(audio).channels != old(audio).channels)
                &&& geometry_view(r.geometry) == (width, height, fps@, scale@)
                &&& r.reason@ == "Moonlight client requested geometry"@
                &&& match ack {
                    Some(a) => r.ack matches Some(x) && x@ == a@,
                    None => r.ack is None,
                }
                &&& !r.cleanup_first
            },
            ControlMessage::ClientStop { .. } => {
                &&& final(audio).channels == old(audio).channels
                &&& !r.channels_changed
                &&& geometry_view(r.geometry) == geometry_view(*default_geometry)
                &&& r.reason@ == "Moonlight client disconnected"@
                &&& r.ack is None
                &&& r.cleanup_first
            },
        },
{
    let generation = audio.generation.wrapping_add(1);
    audio.generation = generation;
    match msg {
        ControlMessage::ClientStart { width, height, fps, scale, audio_channels, ack } => {
            let wanted = match audio_channels {
                Some(c) => *c,
                None => default_channels,
            };
            let text = u32_text(wanted);
            let channels = sanitize_audio_channels(text.as_str(), default_channels);
            let changed = audio.channels != channels;
            audio.channels = channels;
            ControlPlan {
                channels,
                generation,
                channels_changed: changed,
                geometry: StreamGeometry {
                    width: *width,
                    height: *height,
                    fps: fps.clone(),
                    scale: scale.clone(),
                },
                reason: owned("Moonlight client requested geometry"),
                ack: ack.clone(),
                cleanup_first: false,
            }
        },
        ControlMessage::ClientStop { .. } => ControlPlan {
            channels: audio.channels,
            generation,
            channels_changed: false,
            geometry: StreamGeometry {
                width: default_geometry.width,
                height: default_geometry.height,
                fps: default_geometry.fps.clone(),
                scale: default_geometry.scale.clone(),
            },
            reason: owned("Moonlight client disconnected"),
            ack: None,
            cleanup_first: true,
        },
    }
}

/// A delayed sink cleanup of generation `scheduled` still runs only while
/// no newer message came.
pub fn cleanup_still_current(current: u64, scheduled: u64) -> (r: bool)
    ensures
        r == (current == scheduled),
{
    current == scheduled
}

/// The waits of a delayed sink cleanup, in milliseconds: none without
/// audio, else 750, 2000 and 5000.
pub open spec fn cleanup_delays_spec(no_audio: bool) -> Seq<u64> {
    if no_audio {
        Seq::empty()
    } else {
        seq![750u64, 2000u64, 5000u64]
    }
}

/// The waits of a delayed sink cleanup, as `cleanup_delays_spec` lists them.
pub fn cleanup_delays(no_audio: bool) -> (r: Vec<u64>)
    ensures
        r@ == cleanup_delays_spec(no_audio),
{
    if no_audio {
        Vec::new()
    } else {
        let r = vec![750u64, 2000u64, 5000u64];
        assert(r@ =~= seq![750u64, 2000u64, 5000u64]);
        r
    }
}

/// What a delayed sink cleanup does after a wait.
#[derive(Clone, Copy, Debug, PartialEq, Eq)]
pub enum CleanupStep {
    /// Make the sink match `channels`, then wait for the next step.
    Ensure { channels: u32 },
    /// A newer message owns the sink: stop.
    Stop,
}

/// The step after a wait: the cleanup of generation `scheduled` ensures the
/// sink while the audio generation is still `scheduled`, and stops
/// otherwise.
pub open spec fn cleanup_step_spec(current: u64, scheduled: u64, channels: u32) -> CleanupStep {
    if current == scheduled {
        CleanupStep::Ensure { channels }
    } else {
        CleanupStep::Stop
    }
}

/// The step after a wait, as `cleanup_step_spec` states.
pub fn cleanup_step(current: u64, scheduled: u64, channels: u32) -> (r: CleanupStep)
    ensures
        r == cleanup_step_spec(current, scheduled, channels),
{
    if cleanup_still_current(current, scheduled) {
        CleanupStep::Ensure { channels }
    } else {
        CleanupStep::Stop
    }
}

/// The channel counts a cleanup ensures when the audio generation seen
/// after each wait is `seen[i]`: one per step until a step stops.
pub open spec fn cleanup_run(seen: Seq<u64>, scheduled: u64, channels: u32) -> Seq<u32>
    decreases seen.len(),
{
    if seen.len() == 0 {
        Seq::empty()
    } else {
        match cleanup_step_spec(seen[0], scheduled, channels) {
            CleanupStep::Ensure { channels: c } => seq![c] + cleanup_run(
                seen.drop_first(),
                scheduled,
                channels,
            ),
            CleanupStep::Stop => Seq::empty(),
        }
    }
}

proof fn lemma_cleanup_run(seen: Seq<u64>, scheduled: u64, channels: u32)
    ensures
        cleanup_run(seen, scheduled, channels).len() <= seen.len(),
        forall|i: int|
            0 <= i < cleanup_run(seen, scheduled, channels).len() ==> seen[i] == scheduled
                && #[trigger] cleanup_run(seen, scheduled, channels)[i] == channels,
        cleanup_run(seen, scheduled, channels).len() < seen.len() ==> seen[cleanup_run(
            seen,
            scheduled,
            channels,
        ).len() as int] != scheduled,
        forall|i: int|
            0 <= i < seen.len() && #[trigger] seen[i] != scheduled ==> cleanup_run(
                seen,
                scheduled,
                channels,
            ).len() <= i,
    decreases seen.len(),
{
    if seen.len() > 0 && seen[0] == scheduled {
        let rest = seen.drop_first();
        lemma_cleanup_run(rest, scheduled, channels);
        let r = cleanup_run(seen, scheduled, channels);
        assert(r == seq![channels] + cleanup_run(rest, scheduled, channels));
        assert forall|i: int| 0 <= i < r.len() implies seen[i] == scheduled && #[trigger] r[i]
            == channels by {
            if i > 0 {
                assert(seen[i] == rest[i - 1]);
                assert(r[i] == cleanup_run(rest, scheduled, channels)[i - 1]);
            } else {
                assert(r[0] == channels);
            }
        }
        if r.len() < seen.len() {
            assert(seen[r.len() as int] == rest[r.len() - 1]);
        }
        assert forall|i: int| 0 <= i < seen.len() && #[trigger] seen[i] != scheduled implies r.len()
            <= i by {
            if i < r.len() {
                assert(r[i] == channels);
            }
        }
    } else {
        assert(cleanup_run(seen, scheduled, channels) =~= Seq::<u32>::empty());
    }
}

/// A delayed sink cleanup ensures the sink at most three times, nothing
/// without audio, each time with the scheduled channel count and only while
/// no newer message changed the audio generation, and never again once one
/// did.
pub proof fn law_cleanup_schedule(no_audio: bool, seen: Seq<u64>, scheduled: u64, channels: u32)
    requires
        seen.len() == cleanup_delays_spec(no_audio).len(),
    ensures
        cleanup_run(seen, scheduled, channels).len() <= 3,
        no_audio ==> cleanup_run(seen, scheduled, channels).len() == 0,
        forall|i: int|
            0 <= i < cleanup_run(seen, scheduled, channels).len() ==> seen[i] == scheduled
                && #[trigger] cleanup_run(seen, scheduled, channels)[i] == channels,
        forall|i: int|
            0 <= i < seen.len() && #[trigger] seen[i] != scheduled ==> cleanup_run(
                seen,
                scheduled,
                channels,
            ).len() <= i,
        cleanup_run(seen, scheduled, channels).len() < seen.len() ==> seen[cleanup_run(
            seen,
            scheduled,
            channels,
        ).len() as int] != scheduled,
{
    lemma_cleanup_run(seen, scheduled, channels);
}

/// What applying a geometry does to the desktop stack.
pub enum GeometryAction {
    /// KWin already shows this geometry: only the refresh rate changes.
    KeepStack,
    /// The stack restarts, with KWin at this logical size.
    RestartStack { logical_width: u32, logical_height: u32 },
}

/// KWin shows the requested size and scale already.
pub open spec fn same_output(g: (u32, u32, Seq<char>, Seq<char>), width: u32, height: u32, scale: Seq<char>) -> bool {
    g.0 == width && g.1 == height && g.3 == scale
}

/// The geometry after a request, and whether the stack restarts for it.
pub open spec fn geometry_step(
    g: (u32, u32, Seq<char>, Seq<char>),
    kwin_alive: bool,
    width: u32,
    height: u32,
    fps: Seq<char>,
    scale: Seq<char>,
) -> ((u32, u32, Seq<char>, Seq<char>), bool) {
    (
        (width, height, refresh_rate_spec(fps, DEFAULT_FPS@), scale),
        !(kwin_alive && same_output(g, width, height, scale)),
    )
}

/// Applies a requested geometry: the refresh rate is checked (a rate that
/// is not in `(0, 240]` gives 60), and the stack restarts unless KWin is
/// running with the same size and scale.
pub fn apply_geometry(
    current: &mut StreamGeometry,
    kwin_alive: bool,
    width: u32,
    height: u32,
    fps: &str,
    scale: &str,
) -> (r: GeometryAction)
    ensures
        geometry_view(*final(current)) == geometry_step(geometry_view(*old(current)), kwin_alive, width, height, fps@, scale@).0,
        match r {
            GeometryAction::KeepStack => !geometry_step(geometry_view(*old(current)), kwin_alive, width, height, fps@, scale@).1,
            GeometryAction::RestartStack { logical_width, logical_height } => {
                &&& geometry_step(geometry_view(*old(current)), kwin_alive, width, height, fps@, scale@).1
                &&& logical_width == divided_extent(width as nat, scale_value_spec(scale@, unit_scale()))
                &&& logical_height == divided_extent(height as nat, scale_value_spec(scale@, unit_scale()))
            },
        },
{
    let fps_text = sanitize_refresh_rate(fps, DEFAULT_FPS);
    if kwin_alive && current.width == width && current.height == height && str_eq(current.scale.as_str(), scale) {
        current.fps = fps_text;
        return GeometryAction::KeepStack;
    }
    let (logical_width, logical_height) = kwin_virtual_geometry(width, height, scale);
    *current = StreamGeometry { width, height, fps: fps_text, scale: owned(scale) };
    GeometryAction::RestartStack { logical_width, logical_height }
}

/// Applying a geometry is idempotent: asked for again while KWin runs, a
/// geometry that was just applied keeps the stack and stays as it is.
pub proof fn law_geometry_repeat_keeps_stack(
    g: (u32, u32, Seq<char>, Seq<char>),
    kwin_alive: bool,
    width: u32,
    height: u32,
    fps: Seq<char>,
    scale: Seq<char>,
)
    ensures
        ({
            let first = geometry_step(g, kwin_alive, width, height, fps, scale).0;
            geometry_step(first, true, width, height, fps, scale) == (first, false)
        }),
{
}

/// Whatever KWin's state, a request leaves the stream at the requested
/// size and scale.
pub proof fn law_geometry_takes_request(
    g: (u32, u32, Seq<char>, Seq<char>),
    kwin_alive: bool,
    width: u32,
    height: u32,
    fps: Seq<char>,
    scale: Seq<char>,
)
    ensures
        ({
            let after = geometry_step(g, kwin_alive, width, height, fps, scale).0;
            after.0 == width && after.1 == height && after.3 == scale
        }),
{
}

/// Every message moves the generation on, so the delayed cleanups that an
/// earlier message scheduled stand down.
pub proof fn law_newer_message_cancels_cleanup(g: u64)
    ensures
        next_generation(g) != g,
{
}

} // verus!
