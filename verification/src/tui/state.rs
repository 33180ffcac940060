//! The console's state: the log sources, their line buffers, the status
//! snapshot and the modal dialogs.
use vstd::prelude::*;
use crate::paths::{log_dir, path_join};

verus! {

/// The log files the console follows.
#[derive(Clone, Copy, Debug, PartialEq, Eq, Structural)]
pub enum LogSource {
    Sunshine,
    Wrapper,
    KWin,
    Plasma,
    PipeWire,
    Pulse,
}

/// Number of log sources.
pub const LOG_SOURCE_COUNT: usize = 6;

/// Lines kept per log buffer.
pub const MAX_LOG_LINES: usize = 2000;

impl LogSource {
    /// Position of the source in the console's list.
    pub open spec fn position(self) -> nat {
        match self {
            LogSource::Sunshine => 0,
            LogSource::Wrapper => 1,
            LogSource::KWin => 2,
            LogSource::Plasma => 3,
            LogSource::PipeWire => 4,
            LogSource::Pulse => 5,
        }
    }

    /// The source at a position of the console's list.
    pub open spec fn at(i: nat) -> LogSource {
        if i == 0 {
            LogSource::Sunshine
        } else if i == 1 {
            LogSource::Wrapper
        } else if i == 2 {
            LogSource::KWin
        } else if i == 3 {
            LogSource::Plasma
        } else if i == 4 {
            LogSource::PipeWire
        } else {
            LogSource::Pulse
        }
    }

    pub fn index(self) -> (r: usize)
        ensures
            r == self.position(),
            r < LOG_SOURCE_COUNT,
    {
        match self {
            LogSource::Sunshine => 0,
            LogSource::Wrapper => 1,
            LogSource::KWin => 2,
            LogSource::Plasma => 3,
            LogSource::PipeWire => 4,
            LogSource::Pulse => 5,
        }
    }

    pub fn from_index(i: usize) -> (r: LogSource)
        requires
            i < LOG_SOURCE_COUNT,
        ensures
            r == LogSource::at(i as nat),
            r.position() == i,
    {
        if i == 0 {
            LogSource::Sunshine
        } else if i == 1 {
            LogSource::Wrapper
        } else if i == 2 {
            LogSource::KWin
        } else if i == 3 {
            LogSource::Plasma
        } else if i == 4 {
            LogSource::PipeWire
        } else {
            LogSource::Pulse
        }
    }

    /// All sources, in the console's order.
    pub fn all() -> (r: Vec<LogSource>)
        ensures
            r@.len() == LOG_SOURCE_COUNT,
            forall|i: int| 0 <= i < LOG_SOURCE_COUNT ==> #[trigger] r@[i] == LogSource::at(i as nat),
    {
        let mut r: Vec<LogSource> = Vec::new();
        r.push(LogSource::Sunshine);
        r.push(LogSource::Wrapper);
        r.push(LogSource::KWin);
        r.push(LogSource::Plasma);
        r.push(LogSource::PipeWire);
        r.push(LogSource::Pulse);
        r
    }

    /// The next source in the list, wrapping around.
    pub open spec fn next_spec(self) -> LogSource {
        LogSource::at((self.position() + 1) % 6)
    }

    /// The previous source in the list, wrapping around.
    pub open spec fn prev_spec(self) -> LogSource {
        LogSource::at((self.position() + 5) % 6)
    }

    pub fn next(self) -> (r: LogSource)
        ensures
            r == self.next_spec(),
    {
        LogSource::from_index((self.index() + 1) % LOG_SOURCE_COUNT)
    }

    pub fn prev(self) -> (r: LogSource)
        ensures
            r == self.prev_spec(),
    {
        LogSource::from_index((self.index() + LOG_SOURCE_COUNT - 1) % LOG_SOURCE_COUNT)
    }

    pub open spec fn label_spec(self) -> Seq<char> {
        match self {
            LogSource::Sunshine => "Sunshine"@,
            LogSource::Wrapper => "Wrapper"@,
            LogSource::KWin => "KWin"@,
            LogSource::Plasma => "Plasma"@,
            LogSource::PipeWire => "PipeWire"@,
            LogSource::Pulse => "Pulse"@,
        }
    }

    /// The name the console shows for the source.
    pub fn label(self) -> (r: &'static str)
        ensures
            r@ == self.label_spec(),
    {
        match self {
            LogSource::Sunshine => "Sunshine",
            LogSource::Wrapper => "Wrapper",
            LogSource::KWin => "KWin",
            LogSource::Plasma => "Plasma",
            LogSource::PipeWire => "PipeWire",
            LogSource::Pulse => "Pulse",
        }
    }

    pub open spec fn file_name_spec(self) -> Seq<char> {
        match self {
            LogSource::Sunshine => "sunshine.log"@,
            LogSource::Wrapper => "sunshine-wrapper.log"@,
            LogSource::KWin => "kwin-wayland.log"@,
            LogSource::Plasma => "plasmashell.log"@,
            LogSource::PipeWire => "pipewire.log"@,
            LogSource::Pulse => "pipewire-pulse.log"@,
        }
    }

    /// The log file of the source, inside the log directory.
    pub fn path(self) -> (r: String)
        ensures
            r@ == crate::paths::join_spec(crate::paths::log_dir_spec(), self.file_name_spec()),
    {
        let base = log_dir();
        let name = match self {
            LogSource::Sunshine => "sunshine.log",
            LogSource::Wrapper => "sunshine-wrapper.log",
            LogSource::KWin => "kwin-wayland.log",
            LogSource::Plasma => "plasmashell.log",
            LogSource::PipeWire => "pipewire.log",
            LogSource::Pulse => "pipewire-pulse.log",
        };
        path_join(base.as_str(), name)
    }
}

/// Whether a desktop process is running.
#[derive(Clone, Copy, Debug, PartialEq, Eq, Structural)]
pub enum Health {
    Up,
    Down,
    Unknown,
}

/// What the console shows in its status panel.
pub struct StatusSnapshot {
    pub kwin: Health,
    pub plasmashell: Health,
    pub sunshine: Health,
    pub wayland_socket: bool,
    pub pipewire_socket: bool,
    pub pulse_socket: bool,
    pub audio_sink: String,
    pub render_nodes: String,
    pub encoder_summary: Vec<(String, Option<String>)>,
    pub stream_width: u32,
    pub stream_height: u32,
    pub stream_fps: String,
    pub stream_scale: String,
    pub logical_width: u32,
    pub logical_height: u32,
}

impl StatusSnapshot {
    /// Nothing known yet: every process unknown, no sockets, `?` texts.
    pub fn default() -> (s: StatusSnapshot)
        ensures
            s.kwin == Health::Unknown,
            s.plasmashell == Health::Unknown,
            s.sunshine == Health::Unknown,
            !s.wayland_socket && !s.pipewire_socket && !s.pulse_socket,
            s.audio_sink@ == "?"@,
            s.render_nodes@ == "?"@,
            s.encoder_summary@.len() == 0,
            s.stream_width == 0 && s.stream_height == 0,
            s.stream_fps@.len() == 0 && s.stream_scale@.len() == 0,
            s.logical_width == 0 && s.logical_height == 0,
    {
        StatusSnapshot {
            kwin: Health::Unknown,
            plasmashell: Health::Unknown,
            sunshine: Health::Unknown,
            wayland_socket: false,
            pipewire_socket: false,
            pulse_socket: false,
            audio_sink: crate::text::owned("?"),
            render_nodes: crate::text::owned("?"),
            encoder_summary: Vec::new(),
            stream_width: 0,
            stream_height: 0,
            stream_fps: String::new(),
            stream_scale: String::new(),
            logical_width: 0,
            logical_height: 0,
        }
    }
}

/// The last `n` items of `s`, or all of them when there are fewer.
pub open spec fn keep_last<A>(s: Seq<A>, n: nat) -> Seq<A> {
    if s.len() > n {
        s.skip(s.len() - n)
    } else {
        s
    }
}

/// The lines read from one log, and how many arrived while it was not
/// focused.
pub struct LogBuffer {
    lines: Vec<String>,
    pub unread: usize,
}

impl LogBuffer {
    /// The texts of the buffered lines, oldest first.
    pub closed spec fn texts(&self) -> Seq<Seq<char>> {
        self.lines@.map_values(|l: String| l@)
    }

    /// The unread count.
    pub closed spec fn unread_count(&self) -> usize {
        self.unread
    }

    pub fn new() -> (b: LogBuffer)
        ensures
            b.texts().len() == 0,
            b.unread_count() == 0,
    {
        LogBuffer { lines: Vec::new(), unread: 0 }
    }

    /// Appends a line, keeping the newest `MAX_LOG_LINES`; a line that
    /// arrives while the log is not focused counts as unread.
    pub fn push(&mut self, line: String, is_focused: bool)
        ensures
            final(self).texts() == keep_last(old(self).texts().push(line@), MAX_LOG_LINES as nat),
            final(self).unread_count() == if is_focused {
                old(self).unread_count() as int
            } else if old(self).unread_count() == usize::MAX {
                usize::MAX as int
            } else {
                old(self).unread_count() + 1
            },
    {
        let ghost before = self.lines@;
        self.lines.push(line);
        assert(self.lines@.map_values(|l: String| l@) =~= before.map_values(|l: String| l@).push(
            line@,
        ));
        if self.lines.len() > MAX_LOG_LINES {
            let excess = self.lines.len() - MAX_LOG_LINES;
            let ghost all = self.lines@;
            let tail = self.lines.split_off(excess);
            self.lines = tail;
            assert(self.lines@.map_values(|l: String| l@) =~= all.map_values(|l: String| l@).skip(
                excess as int,
            ));
        }
        if !is_focused {
            self.unread = if self.unread == usize::MAX {
                usize::MAX
            } else {
                self.unread + 1
            };
        }
    }

    /// The buffered lines, oldest first.
    pub fn lines(&self) -> (r: &[String])
        ensures
            r@.map_values(|l: String| l@) == self.texts(),
    {
        self.lines.as_slice()
    }

    pub fn clear_unread(&mut self)
        ensures
            final(self).unread_count() == 0,
            final(self).texts() == old(self).texts(),
    {
        self.unread = 0;
    }
}

/// The dialog the console shows over its main view.
#[derive(Clone, Copy, Debug, PartialEq, Eq, Structural)]
pub enum Modal {
    Closed,
    PairPin,
    Shell,
}

/// The console's whole state.
pub struct AppState {
    pub status: StatusSnapshot,
    /// One buffer per log source, at the source's position.
    pub logs: Vec<LogBuffer>,
    pub focused_log: LogSource,
    pub log_scroll: usize,
    pub follow_tail: bool,
    pub modal: Modal,
    pub pin_input: String,
    pub pin_message: String,
    pub should_quit: bool,
    pub should_shell: bool,
}

impl AppState {
    /// One buffer per source.
    pub open spec fn wf(&self) -> bool {
        self.logs@.len() == LOG_SOURCE_COUNT
    }

    /// A fresh console: empty buffers, the Sunshine log focused and
    /// following its tail, no dialog.
    pub fn new() -> (app: AppState)
        ensures
            app.wf(),
            forall|i: int|
                0 <= i < LOG_SOURCE_COUNT ==> (#[trigger] app.logs@[i]).texts().len() == 0
                    && app.logs@[i].unread_count() == 0,
            app.focused_log == LogSource::Sunshine,
            app.log_scroll == 0,
            app.follow_tail,
            app.modal == Modal::Closed,
            app.pin_input@.len() == 0,
            app.pin_message@.len() == 0,
            !app.should_quit,
            !app.should_shell,
    {
        let mut logs: Vec<LogBuffer> = Vec::new();
        let mut i: usize = 0;
        while i < LOG_SOURCE_COUNT
            invariant
                i <= LOG_SOURCE_COUNT,
                logs@.len() == i,
                forall|j: int|
                    0 <= j < i ==> (#[trigger] logs@[j]).texts().len() == 0 && logs@[j].unread_count()
                        == 0,
            decreases LOG_SOURCE_COUNT - i,
        {
            logs.push(LogBuffer::new());
            i = i + 1;
        }
        AppState {
            status: StatusSnapshot::default(),
            logs,
            focused_log: LogSource::Sunshine,
            log_scroll: 0,
            follow_tail: true,
            modal: Modal::Closed,
            pin_input: String::new(),
            pin_message: String::new(),
            should_quit: false,
            should_shell: false,
        }
    }

    /// Focuses a log: its unread count is cleared, the view jumps to its
    /// tail and follows it.
    pub fn focus(&mut self, source: LogSource)
        requires
            old(self).wf(),
        ensures
            final(self).wf(),
            final(self).focused_log == source,
            final(self).log_scroll == 0,
            final(self).follow_tail,
            final(self).logs@[source.position() as int].unread_count() == 0,
            final(self).logs@[source.position() as int].texts() == old(self).logs@[
                source.position() as int
            ].texts(),
            forall|i: int|
                #![auto]
                0 <= i < LOG_SOURCE_COUNT && i != source.position() ==> final(self).logs@[i]
                    == old(self).logs@[i],
            final(self).modal == old(self).modal,
            final(self).pin_input == old(self).pin_input,
            final(self).pin_message == old(self).pin_message,
            final(self).should_quit == old(self).should_quit,
            final(self).should_shell == old(self).should_shell,
            final(self).status == old(self).status,
    {
        self.focused_log = source;
        let i = source.index();
        self.logs[i].clear_unread();
        self.log_scroll = 0;
        self.follow_tail = true;
    }

    /// The focused log's buffer.
    pub fn focused_buffer(&self) -> (r: Option<&LogBuffer>)
        ensures
            self.wf() ==> r == Some(&self.logs@[self.focused_log.position() as int]),
            !self.wf() && self.focused_log.position() < self.logs@.len() ==> r == Some(
                &self.logs@[self.focused_log.position() as int],
            ),
            self.focused_log.position() >= self.logs@.len() ==> r is None,
    {
        let i = self.focused_log.index();
        if i < self.logs.len() {
            Some(&self.logs[i])
        } else {
            None
        }
    }
}

/// A log buffer never holds more than `MAX_LOG_LINES` lines, and a pushed
/// line is always the newest one kept.
pub proof fn law_push_bounded(before: Seq<Seq<char>>, line: Seq<char>)
    requires
        before.len() <= MAX_LOG_LINES,
    ensures
        keep_last(before.push(line), MAX_LOG_LINES as nat).len() <= MAX_LOG_LINES,
        keep_last(before.push(line), MAX_LOG_LINES as nat).last() == line,
{
}

} // verus!
