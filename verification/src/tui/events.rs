//! What the console does with what arrives between frames: a log line, the
//! outcome of staging a PIN, fresh status, and the embedded shell's life.
use vstd::prelude::*;
use crate::desktop::control::{geometry_view, StreamGeometry};
use crate::decimal::divided_extent;
use crate::env_config::{kwin_virtual_geometry, scale_value_spec, unit_scale};
use crate::lines::{join_spec, join_with, texts};
use crate::order::sorted_texts;
use crate::text::{clear_string, owned, push_str, trim, trim_spec};
use crate::tui::state::{keep_last, AppState, Health, LogSource, Modal, StatusSnapshot, MAX_LOG_LINES};
use crate::encoder::{render_node_paths, render_nodes_of};

verus! {

broadcast use vstd::seq_lib::group_to_multiset_ensures;

/// A line read from one of the logs.
pub struct LogLine {
    pub source: LogSource,
    pub line: String,
}

impl AppState {
    /// Adds a line to its log's buffer; it is unread unless that log is
    /// focused.
    pub fn receive_log(&mut self, entry: LogLine)
        requires
            old(self).wf(),
        ensures
            final(self).wf(),
            ({
                let i = entry.source.position() as int;
                let b = old(self).logs@[i];
                let nb = final(self).logs@[i];
                &&& nb.texts() == keep_last(b.texts().push(entry.line@), MAX_LOG_LINES as nat)
                &&& nb.unread_count() == if entry.source == old(self).focused_log {
                    b.unread_count() as int
                } else if b.unread_count() == usize::MAX {
                    usize::MAX as int
                } else {
                    b.unread_count() + 1
                }
            }),
            forall|k: int|
                #![auto]
                0 <= k < old(self).logs@.len() && k != entry.source.position() ==> final(self).logs@[k]
                    == old(self).logs@[k],
            final(self).ui_view() == old(self).ui_view(),
            final(self).status == old(self).status,
    {
        let i = entry.source.index();
        let focused = entry.source == self.focused_log;
        self.logs[i].push(entry.line, focused);
    }

    /// Applies the outcome of staging the PIN: on success the dialog closes
    /// and empties, on failure it shows the reason.
    pub fn pin_submitted(&mut self, outcome: Result<(), String>)
        ensures
            match outcome {
                Ok(()) => final(self).modal == Modal::Closed && final(self).pin_input@.len() == 0
                    && final(self).pin_message@.len() == 0,
                Err(e) => final(self).modal == old(self).modal && final(self).pin_input == old(self).pin_input
                    && final(self).pin_message@ == e@,
            },
            final(self).focused_log == old(self).focused_log,
            final(self).log_scroll == old(self).log_scroll,
            final(self).follow_tail == old(self).follow_tail,
            final(self).should_quit == old(self).should_quit,
            final(self).should_shell == old(self).should_shell,
            final(self).logs == old(self).logs,
            final(self).status == old(self).status,
    {
        match outcome {
            Ok(()) => {
                self.modal = Modal::Closed;
                clear_string(&mut self.pin_input);
                clear_string(&mut self.pin_message);
            },
            Err(e) => {
                self.pin_message = e;
            },
        }
    }

    /// Takes the fast-changing status, keeping the audio and encoder
    /// summaries of the last slow refresh.
    pub fn apply_fast_status(&mut self, next: StatusSnapshot)
        ensures
            final(self).status.kwin == next.kwin,
            final(self).status.plasmashell == next.plasmashell,
            final(self).status.sunshine == next.sunshine,
            final(self).status.wayland_socket == next.wayland_socket,
            final(self).status.pipewire_socket == next.pipewire_socket,
            final(self).status.pulse_socket == next.pulse_socket,
            final(self).status.render_nodes == next.render_nodes,
            final(self).status.stream_width == next.stream_width,
            final(self).status.stream_height == next.stream_height,
            final(self).status.stream_fps == next.stream_fps,
            final(self).status.stream_scale == next.stream_scale,
            final(self).status.logical_width == next.logical_width,
            final(self).status.logical_height == next.logical_height,
            final(self).status.audio_sink == old(self).status.audio_sink,
            final(self).status.encoder_summary == old(self).status.encoder_summary,
            final(self).ui_view() == old(self).ui_view(),
            final(self).logs == old(self).logs,
    {
        let mut audio = String::new();
        std::mem::swap(&mut audio, &mut self.status.audio_sink);
        let mut encoders: Vec<(String, Option<String>)> = Vec::new();
        std::mem::swap(&mut encoders, &mut self.status.encoder_summary);
        self.status = next;
        self.status.audio_sink = audio;
        self.status.encoder_summary = encoders;
    }

    /// Takes the slowly changing status: the audio and encoder summaries.
    pub fn apply_slow_status(&mut self, audio_sink: String, encoder_summary: Vec<(String, Option<String>)>)
        ensures
            final(self).status.audio_sink == audio_sink,
            final(self).status.encoder_summary == encoder_summary,
            final(self).status == (StatusSnapshot {
                audio_sink: audio_sink,
                encoder_summary: encoder_summary,
                ..old(self).status
            }),
            final(self).ui_view() == old(self).ui_view(),
            final(self).logs == old(self).logs,
    {
        self.status.audio_sink = audio_sink;
        self.status.encoder_summary = encoder_summary;
    }
}

/// What the console does after drawing a frame.
#[derive(Clone, Copy, Debug, PartialEq, Eq, Structural)]
pub enum FrameStep {
    /// Leave the console.
    Quit,
    /// Start the embedded shell.
    SpawnShell,
    /// Wait for the next event.
    Continue,
}

impl AppState {
    /// After a frame: quit when asked to; a shell request is taken once, and
    /// starts a shell only when none runs.
    pub fn next_frame(&mut self, shell_running: bool) -> (r: FrameStep)
        ensures
            old(self).should_quit ==> r == FrameStep::Quit && final(self).should_shell == old(self).should_shell,
            !old(self).should_quit ==> {
                &&& !final(self).should_shell
                &&& r == if old(self).should_shell && !shell_running {
                    FrameStep::SpawnShell
                } else {
                    FrameStep::Continue
                }
            },
            final(self).modal == old(self).modal,
            final(self).should_quit == old(self).should_quit,
            final(self).focused_log == old(self).focused_log,
            final(self).logs == old(self).logs,
    {
        if self.should_quit {
            return FrameStep::Quit;
        }
        if self.should_shell {
            self.should_shell = false;
            if !shell_running {
                return FrameStep::SpawnShell;
            }
        }
        FrameStep::Continue
    }

    /// The shell started: the console shows it.
    pub fn shell_started(&mut self)
        ensures
            final(self).modal == Modal::Shell,
            final(self).focused_log == old(self).focused_log,
            final(self).logs == old(self).logs,
    {
        self.modal = Modal::Shell;
    }

    /// The shell was checked: when it shows and has exited, the view
    /// closes. Returns whether the shell is dropped.
    pub fn shell_checked(&mut self, alive: bool) -> (r: bool)
        ensures
            r == (old(self).modal == Modal::Shell && !alive),
            final(self).modal == if r {
                Modal::Closed
            } else {
                old(self).modal
            },
            final(self).focused_log == old(self).focused_log,
            final(self).logs == old(self).logs,
    {
        if self.modal == Modal::Shell && !alive {
            self.modal = Modal::Closed;
            return true;
        }
        false
    }
}

/// The terminal size for the shell: the panel's, at least one cell each
/// way, or 24 rows by 80 columns before the panel was drawn.
pub fn shell_size(area: Option<(u16, u16)>) -> (r: (u16, u16))
    ensures
        match area {
            Some((rows, cols)) => r == (if rows < 1 { 1u16 } else { rows }, if cols < 1 { 1u16 } else { cols }),
            None => r == (24u16, 80u16),
        },
{
    match area {
        Some((rows, cols)) => (if rows < 1 { 1 } else { rows }, if cols < 1 { 1 } else { cols }),
        None => (24, 80),
    }
}

/// The render nodes in order, separated by spaces, or `none`.
pub fn render_nodes_summary(dri_entries: &[String]) -> (r: String)
    ensures
        exists|nodes: Seq<Seq<char>>|
            {
                &&& sorted_texts(nodes)
                &&& nodes.to_multiset() == render_node_paths(texts(dri_entries@)).to_multiset()
                &&& r@ == if nodes.len() == 0 {
                    "none"@
                } else {
                    join_spec(nodes, " "@)
                }
            },
{
    let nodes = render_nodes_of(dri_entries);
    if nodes.len() == 0 {
        owned("none")
    } else {
        join_with(&nodes, " ")
    }
}

/// The fast-changing status: process health, sockets, render nodes, and
/// the stream geometry with KWin's logical size for it.
pub fn build_fast_status(
    kwin: Health,
    plasmashell: Health,
    sunshine: Health,
    wayland_socket: bool,
    pipewire_socket: bool,
    pulse_socket: bool,
    render_nodes: String,
    geometry: &StreamGeometry,
) -> (r: StatusSnapshot)
    ensures
        r.kwin == kwin && r.plasmashell == plasmashell && r.sunshine == sunshine,
        r.wayland_socket == wayland_socket && r.pipewire_socket == pipewire_socket && r.pulse_socket
            == pulse_socket,
        r.render_nodes == render_nodes,
        r.audio_sink@.len() == 0,
        r.encoder_summary@.len() == 0,
        (r.stream_width, r.stream_height, r.stream_fps@, r.stream_scale@) == geometry_view(*geometry),
        r.logical_width == divided_extent(geometry.width as nat, scale_value_spec(geometry.scale@, unit_scale())),
        r.logical_height == divided_extent(geometry.height as nat, scale_value_spec(geometry.scale@, unit_scale())),
{
    let (lw, lh) = kwin_virtual_geometry(geometry.width, geometry.height, geometry.scale.as_str());
    StatusSnapshot {
        kwin,
        plasmashell,
        sunshine,
        wayland_socket,
        pipewire_socket,
        pulse_socket,
        audio_sink: String::new(),
        render_nodes,
        encoder_summary: Vec::new(),
        stream_width: geometry.width,
        stream_height: geometry.height,
        stream_fps: geometry.fps.clone(),
        stream_scale: geometry.scale.clone(),
        logical_width: lw,
        logical_height: lh,
    }
}

/// The command that stages a pairing PIN, with the PIN trimmed; an empty
/// PIN is refused.
pub fn submit_pin(pin: &str) -> (r: Result<Vec<String>, &'static str>)
    ensures
        match r {
            Ok(c) => trim_spec(pin@).len() > 0 && texts(c@) == seq![
                "/usr/local/bin/arch-sunshine-server"@,
                "pin"@,
                trim_spec(pin@),
            ],
            Err(m) => trim_spec(pin@).len() == 0 && m@ == "PIN is empty"@,
        },
{
    let t = trim(pin);
    if crate::text::chars_of(t.as_str()).len() == 0 {
        return Err("PIN is empty");
    }
    let mut c: Vec<String> = Vec::new();
    c.push(owned("/usr/local/bin/arch-sunshine-server"));
    c.push(owned("pin"));
    c.push(t);
    assert(texts(c@) =~= seq!["/usr/local/bin/arch-sunshine-server"@, "pin"@, trim_spec(pin@)]);
    Ok(c)
}

/// The message when the PIN command failed with an exit status.
pub fn pin_not_staged_message(status: &str) -> (r: String)
    ensures
        r@ == "PIN was not staged (exit "@ + status@ + ")"@,
{
    let mut m = owned("PIN was not staged (exit ");
    push_str(&mut m, status);
    push_str(&mut m, ")");
    m
}

} // verus!
