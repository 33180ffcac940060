//! Layout decisions for the console's log panel.
use vstd::prelude::*;
use crate::decimal::{lower_ascii, lower_char};
use crate::text::{chars_of, contains, contains_text, nat_text, owned, push_char, push_str, u32_text};
use crate::tui::state::StatusSnapshot;

verus! {

/// Rows a line of `len` characters takes when wrapped at `width` columns;
/// an empty line still takes one row.
pub open spec fn line_rows(len: nat, width: nat) -> nat {
    let l = if len < 1 {
        1
    } else {
        len
    };
    if l % width == 0 {
        l / width
    } else {
        l / width + 1
    }
}

/// Rows the lines `lines[a..b]` take when wrapped at `width` columns.
pub open spec fn rows_between(lines: Seq<Seq<char>>, a: int, b: int, width: nat) -> nat
    decreases b - a,
{
    if b <= a {
        0
    } else {
        rows_between(lines, a, b - 1, width) + line_rows(lines[b - 1].len(), width)
    }
}

/// Where the visible part of a log ends: the last line when following the
/// tail, otherwise `scroll` lines before it.
pub open spec fn view_end(total: nat, follow_tail: bool, scroll: nat) -> nat {
    if follow_tail {
        total
    } else if scroll >= total {
        0
    } else {
        (total - scroll) as nat
    }
}

proof fn lemma_rows_split(lines: Seq<Seq<char>>, a: int, b: int, width: nat)
    requires
        a < b,
        width > 0,
    ensures
        rows_between(lines, a, b, width) == line_rows(lines[a].len(), width) + rows_between(
            lines,
            a + 1,
            b,
            width,
        ),
    decreases b - a,
{
    assert(rows_between(lines, a, b, width) == rows_between(lines, a, b - 1, width) + line_rows(
        lines[b - 1].len(),
        width,
    ));
    if a + 1 < b {
        lemma_rows_split(lines, a, b - 1, width);
        assert(rows_between(lines, a + 1, b, width) == rows_between(lines, a + 1, b - 1, width)
            + line_rows(lines[b - 1].len(), width));
    } else {
        assert(rows_between(lines, a, a, width) == 0);
        assert(rows_between(lines, a + 1, b, width) == 0);
    }
}

proof fn lemma_rows_monotone(lines: Seq<Seq<char>>, a: int, s: int, b: int, width: nat)
    requires
        a <= s <= b,
        width > 0,
    ensures
        rows_between(lines, a, b, width) >= rows_between(lines, s, b, width),
    decreases s - a,
{
    if a < s {
        lemma_rows_split(lines, a, b, width);
        lemma_rows_monotone(lines, a + 1, s, b, width);
    }
}

/// The lines of a log that fit a panel of `width` x `height` cells: the
/// window ends at `view_end` and reaches back as far as the wrapped lines
/// still fit. `None` when the panel or the log is empty.
pub fn log_viewport(
    lines: &[String],
    follow_tail: bool,
    log_scroll: usize,
    width: u16,
    height: u16,
) -> (r: Option<(usize, usize)>)
    ensures
        (width == 0 || height == 0 || lines@.len() == 0) <==> r is None,
        r matches Some((start, end)) ==> {
            let texts = lines@.map_values(|l: String| l@);
            &&& end == view_end(lines@.len(), follow_tail, log_scroll as nat)
            &&& start <= end
            &&& rows_between(texts, start as int, end as int, width as nat) <= height
            &&& (start == 0 || rows_between(texts, start - 1, end as int, width as nat) > height)
        },
{
    let total = lines.len();
    if width == 0 || height == 0 || total == 0 {
        return None;
    }
    let ghost texts = lines@.map_values(|l: String| l@);
    let w = width as usize;
    let h = height as usize;
    let end: usize = if follow_tail {
        total
    } else if log_scroll >= total {
        0
    } else {
        total - log_scroll
    };
    let mut accumulated: usize = 0;
    let mut start = end;
    let mut i = end;
    while i > 0
        invariant_except_break
            end <= total == lines@.len(),
            texts == lines@.map_values(|l: String| l@),
            w == width as nat,
            w > 0,
            h == height as nat,
            start == i,
            i <= end,
            accumulated == rows_between(texts, i as int, end as int, w as nat),
            accumulated <= h,
        ensures
            start <= end,
            rows_between(texts, start as int, end as int, w as nat) <= h,
            start == 0 || rows_between(texts, start - 1, end as int, w as nat) > h,
        decreases i,
    {
        let len = chars_of(lines[i - 1].as_str()).len();
        assert(len == texts[i - 1].len());
        let l = if len < 1 {
            1
        } else {
            len
        };
        let rows = if l % w == 0 {
            l / w
        } else {
            assert(l / w < usize::MAX) by (nonlinear_arith)
                requires
                    w > 0,
                    l % w != 0,
                    l <= usize::MAX,
            ;
            l / w + 1
        };
        proof {
            lemma_rows_split(texts, i - 1, end as int, w as nat);
        }
        if rows > h - accumulated {
            break;
        }
        accumulated = accumulated + rows;
        i = i - 1;
        start = i;
    }
    Some((start, end))
}

/// How a log line is coloured in the viewer, by the words it contains.
#[derive(Clone, Copy, Debug, PartialEq, Eq)]
pub enum LogTone {
    Error,
    Warn,
    Info,
    Plain,
}

/// The text with ASCII letters in lower case.
pub open spec fn lower_text(s: Seq<char>) -> Seq<char> {
    s.map_values(|c: char| lower_ascii(c))
}

/// A line mentioning "error" or "fatal" (in any case) is an error, else one
/// mentioning "warn" a warning, else one mentioning "info" an information.
pub open spec fn tone_of(line: Seq<char>) -> LogTone {
    let l = lower_text(line);
    if contains_text(l, "error"@) || contains_text(l, "fatal"@) {
        LogTone::Error
    } else if contains_text(l, "warn"@) {
        LogTone::Warn
    } else if contains_text(l, "info"@) {
        LogTone::Info
    } else {
        LogTone::Plain
    }
}

/// The tone of a log line, as `tone_of` states it.
pub fn log_line_tone(line: &str) -> (r: LogTone)
    ensures
        r == tone_of(line@),
{
    let chars = chars_of(line);
    let mut lower: Vec<char> = Vec::new();
    let mut i: usize = 0;
    while i < chars.len()
        invariant
            i <= chars@.len(),
            lower@ == lower_text(chars@.take(i as int)),
        decreases chars@.len() - i,
    {
        lower.push(lower_char(chars[i]));
        i = i + 1;
        assert(lower@ =~= lower_text(chars@.take(i as int)));
    }
    assert(chars@.take(i as int) =~= chars@);
    let error = chars_of("error");
    let fatal = chars_of("fatal");
    let warn = chars_of("warn");
    let info = chars_of("info");
    if contains(&lower, &error) || contains(&lower, &fatal) {
        LogTone::Error
    } else if contains(&lower, &warn) {
        LogTone::Warn
    } else if contains(&lower, &info) {
        LogTone::Info
    } else {
        LogTone::Plain
    }
}

/// The title of the console: the stream's geometry and KWin's logical size.
pub open spec fn stream_title_spec(s: StatusSnapshot) -> Seq<char> {
    " "@ + nat_text(s.stream_width as nat) + "×"@ + nat_text(s.stream_height as nat) + "@"@
        + s.stream_fps@ + " scale "@ + s.stream_scale@ + " · logical "@ + nat_text(
        s.logical_width as nat,
    ) + "×"@ + nat_text(s.logical_height as nat) + " "@
}

/// The console's title, as `stream_title_spec` states it.
pub fn stream_title(s: &StatusSnapshot) -> (r: String)
    ensures
        r@ == stream_title_spec(*s),
{
    let mut t = owned(" ");
    push_str(&mut t, u32_text(s.stream_width).as_str());
    push_str(&mut t, "×");
    push_str(&mut t, u32_text(s.stream_height).as_str());
    push_str(&mut t, "@");
    push_str(&mut t, s.stream_fps.as_str());
    push_str(&mut t, " scale ");
    push_str(&mut t, s.stream_scale.as_str());
    push_str(&mut t, " · logical ");
    push_str(&mut t, u32_text(s.logical_width).as_str());
    push_str(&mut t, "×");
    push_str(&mut t, u32_text(s.logical_height).as_str());
    push_str(&mut t, " ");
    t
}

/// The PIN as the dialog shows it: padded with spaces to eight characters.
pub open spec fn padded_pin_spec(pin: Seq<char>) -> Seq<char> {
    if pin.len() >= 8 {
        pin
    } else {
        pin + Seq::new((8 - pin.len()) as nat, |i: int| ' ')
    }
}

/// The PIN padded to eight characters (std's `{:<8}`).
pub fn padded_pin(pin: &str) -> (r: String)
    ensures
        r@ == padded_pin_spec(pin@),
{
    let n = chars_of(pin).len();
    let mut out = owned(pin);
    let mut k = n;
    while k < 8
        invariant
            n == pin@.len(),
            n <= k <= 8 || (n > 8 && k == n),
            k >= n,
            out@ == pin@ + Seq::new((k - n) as nat, |i: int| ' '),
        decreases 8 - k,
    {
        push_char(&mut out, ' ');
        k = k + 1;
        assert(out@ =~= pin@ + Seq::new((k - n) as nat, |i: int| ' '));
    }
    assert(n >= 8 ==> out@ =~= pin@);
    assert(n < 8 ==> k == 8);
    out
}

/// Where the pairing dialog stands in a screen area `(x, y, width,
/// height)`: at most 48 columns wide (two columns of margin each side), 7
/// rows high, centred.
pub fn pin_dialog_area(area: (u16, u16, u16, u16)) -> (r: (u16, u16, u16, u16))
    requires
        area.0 + area.2 <= u16::MAX,
        area.1 + area.3 <= u16::MAX,
    ensures
        ({
            let width: int = if area.2 < 4 {
                0
            } else if area.2 - 4 < 48 {
                area.2 - 4
            } else {
                48
            };
            let free_w: int = if area.2 < width { 0 } else { area.2 - width };
            let free_h: int = if area.3 < 7 { 0 } else { area.3 - 7 };
            r == ((area.0 + free_w / 2) as u16, (area.1 + free_h / 2) as u16, width as u16, 7u16)
        }),
{
    let (ax, ay, aw, ah) = area;
    let margin = if aw < 4 { 0 } else { aw - 4 };
    let width = if margin < 48 { margin } else { 48 };
    let height: u16 = 7;
    let free_w = if aw < width { 0 } else { aw - width };
    let free_h = if ah < height { 0 } else { ah - height };
    (ax + free_w / 2, ay + free_h / 2, width, height)
}

} // verus!
