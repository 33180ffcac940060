//! The stream's PipeWire audio sink: what `pactl list sinks` reports of it,
//! the commands that set it up, and the plan that makes it match the
//! client's channel count.
use vstd::prelude::*;
use crate::env_config::{audio_channels_spec, sanitize_audio_channels};
use crate::json::{
    field, field_is_str, get_field, json_parse, json_text, json_value_text, parse_json, str_field,
    JsonValue,
};
use crate::lines::{lines_spec, split_lines, split_whitespace, texts, words_spec};
use crate::order::{sort_dedup_texts, strictly_sorted_texts};
use crate::paths::{audio_channel_map, audio_channel_map_spec, AUDIO_SINK_DESCRIPTION, AUDIO_SINK_NAME};
use crate::text::{
    all_digits, all_digits_range, chars_of, is_prefix, nat_text, owned, parse_u32, parse_u32_spec,
    push_str, slice_chars, str_eq, str_starts_with, string_of, trim, trim_spec, u32_text,
};

verus! {

// ---------------------------------------------------------------------------
// Node ids in `pw-dump` output
// ---------------------------------------------------------------------------

/// The text of an id value: a number as its text, a string as itself, any
/// other value as its compact JSON text.
pub open spec fn id_text(v: JsonValue) -> Seq<char> {
    match v {
        JsonValue::Number(t) => t@,
        JsonValue::Str(t) => t@,
        _ => json_text(v),
    }
}

/// A node's properties: its `info.props`.
pub open spec fn node_props(node: JsonValue) -> Option<JsonValue> {
    match field(node, "info"@) {
        Some(info) => field(info, "props"@),
        None => None,
    }
}

/// The id of the first node from `nodes[i]` on whose `node.name` and
/// `media.class` properties are the strings asked for: its `object.id`
/// property, else its `id`, as text; `None` when no node matches, when the
/// matching node has neither, or as soon as a node has no properties.
pub open spec fn node_id_from(nodes: Seq<JsonValue>, i: int, name: Seq<char>, class: Seq<char>) -> Option<
    Seq<char>,
>
    decreases nodes.len() - i,
{
    if i < 0 || i >= nodes.len() {
        None
    } else {
        match node_props(nodes[i]) {
            None => None,
            Some(props) => if str_field(props, "node.name"@) == Some(name) && str_field(
                props,
                "media.class"@,
            ) == Some(class) {
                match field(props, "object.id"@) {
                    Some(x) => Some(id_text(x)),
                    None => match field(nodes[i], "id"@) {
                        Some(x) => Some(id_text(x)),
                        None => None,
                    },
                }
            } else {
                node_id_from(nodes, i + 1, name, class)
            },
        }
    }
}

/// The id of a node in a `pw-dump` document, which is an array of nodes.
pub open spec fn node_id_spec(dump: JsonValue, name: Seq<char>, class: Seq<char>) -> Option<
    Seq<char>,
> {
    match dump {
        JsonValue::Array(nodes) => node_id_from(nodes@, 0, name, class),
        _ => None,
    }
}

/// The text of an id value, as `id_text` states.
fn id_value_text(v: &JsonValue) -> (r: String)
    ensures
        r@ == id_text(*v),
{
    match v {
        JsonValue::Number(t) => owned(t.as_str()),
        JsonValue::Str(t) => owned(t.as_str()),
        _ => json_value_text(v),
    }
}

/// The id of the node named `node_name` of class `media_class` in a parsed
/// `pw-dump` document, as `node_id_spec` states.
pub fn node_id_in_dump(dump: &JsonValue, node_name: &str, media_class: &str) -> (r: Option<String>)
    ensures
        opt_view(r) == node_id_spec(*dump, node_name@, media_class@),
{
    match dump {
        JsonValue::Array(nodes) => {
            let mut i: usize = 0;
            while i < nodes.len()
                invariant
                    i <= nodes@.len(),
                    *dump == JsonValue::Array(*nodes),
                    node_id_from(nodes@, 0, node_name@, media_class@) == node_id_from(
                        nodes@,
                        i as int,
                        node_name@,
                        media_class@,
                    ),
                decreases nodes@.len() - i,
            {
                let node = &nodes[i];
                assert(*node == nodes@[i as int]);
                let props = match get_field(node, "info") {
                    Some(info) => get_field(info, "props"),
                    None => None,
                };
                assert(match props {
                    Some(p) => node_props(*node) == Some(*p),
                    None => node_props(*node) is None,
                });
                match props {
                    None => {
                        return None;
                    },
                    Some(p) => {
                        if field_is_str(p, "node.name", node_name) && field_is_str(
                            p,
                            "media.class",
                            media_class,
                        ) {
                            let id = match get_field(p, "object.id") {
                                Some(x) => Some(x),
                                None => get_field(node, "id"),
                            };
                            return match id {
                                Some(x) => Some(id_value_text(x)),
                                None => None,
                            };
                        }
                    },
                }
                i = i + 1;
            }
            None
        },
        _ => None,
    }
}

/// The id of the node named `node_name` of class `media_class` in the
/// output of `pw-dump`: `None` when the output is not JSON, otherwise as
/// `node_id_spec` states of the parsed document.
pub fn pipewire_node_id_from_dump(stdout: &[u8], node_name: &str, media_class: &str) -> (r: Option<
    String,
>)
    ensures
        opt_view(r) == match json_parse(stdout@) {
            Some(v) => node_id_spec(v, node_name@, media_class@),
            None => None,
        },
{
    match parse_json(stdout) {
        Some(v) => node_id_in_dump(&v, node_name, media_class),
        None => None,
    }
}

/// What `pactl list sinks` reports of the stream's sink: its name, the
/// module that owns it, and its channel count.
pub struct SinkDetails {
    pub name: Option<String>,
    pub owner_module: Option<String>,
    pub channels: Option<u32>,
}

/// The text of an optional string.
pub open spec fn opt_view(o: Option<String>) -> Option<Seq<char>> {
    match o {
        Some(s) => Some(s@),
        None => None,
    }
}

/// Sink details as text.
pub open spec fn sink_view(d: SinkDetails) -> (Option<Seq<char>>, Option<Seq<char>>, Option<u32>) {
    (opt_view(d.name), opt_view(d.owner_module), d.channels)
}

/// Nothing known of a sink.
pub open spec fn no_sink() -> (Option<Seq<char>>, Option<Seq<char>>, Option<u32>) {
    (None, None, None)
}

/// Whether `s` ends with `p`.
pub open spec fn ends_with(s: Seq<char>, p: Seq<char>) -> bool {
    p.len() <= s.len() && s.skip(s.len() - p.len()) == p
}

/// The channel count of a sample specification: the first word `Nch` whose
/// `N` reads as a number.
pub open spec fn channel_count_of(words: Seq<Seq<char>>) -> Option<u32>
    decreases words.len(),
{
    if words.len() == 0 {
        None
    } else {
        let w = words[0];
        if ends_with(w, "ch"@) && parse_u32_spec(w.take(w.len() - 2)) is Some {
            parse_u32_spec(w.take(w.len() - 2))
        } else {
            channel_count_of(words.drop_first())
        }
    }
}

/// The text after a prefix.
pub open spec fn after(line: Seq<char>, prefix: Seq<char>) -> Seq<char> {
    line.skip(prefix.len() as int)
}

/// What one trimmed line of a sink's block tells: its name; and, for the
/// stream's sink, its owner module (when all digits) and its channel count.
pub open spec fn sink_step(
    cur: (Option<Seq<char>>, Option<Seq<char>>, Option<u32>),
    line: Seq<char>,
) -> (Option<Seq<char>>, Option<Seq<char>>, Option<u32>) {
    if is_prefix("Name:"@, line) {
        (Some(trim_spec(after(line, "Name:"@))), cur.1, cur.2)
    } else if cur.0 == Some(AUDIO_SINK_NAME@) {
        if is_prefix("Owner Module:"@, line) {
            let o = trim_spec(after(line, "Owner Module:"@));
            if all_digits(o) {
                (cur.0, Some(o), cur.2)
            } else {
                cur
            }
        } else if is_prefix("Sample Specification:"@, line) {
            match channel_count_of(words_spec(after(line, "Sample Specification:"@))) {
                Some(n) => (cur.0, cur.1, Some(n)),
                None => cur,
            }
        } else {
            cur
        }
    } else {
        cur
    }
}

/// Reads the lines of `pactl list sinks` on from `cur`: a line starting a
/// new sink ends the search when the stream's sink was read, and starts a
/// fresh block otherwise; at the end, the stream's sink or nothing.
pub open spec fn sink_scan(
    ls: Seq<Seq<char>>,
    cur: (Option<Seq<char>>, Option<Seq<char>>, Option<u32>),
) -> (Option<Seq<char>>, Option<Seq<char>>, Option<u32>)
    decreases ls.len(),
{
    if ls.len() == 0 {
        if cur.0 == Some(AUDIO_SINK_NAME@) {
            cur
        } else {
            no_sink()
        }
    } else if is_prefix("Sink #"@, ls[0]) {
        if cur.0 == Some(AUDIO_SINK_NAME@) {
            cur
        } else {
            sink_scan(ls.drop_first(), no_sink())
        }
    } else {
        sink_scan(ls.drop_first(), sink_step(cur, trim_spec(ls[0])))
    }
}

/// The channel count of a sample specification, as `channel_count_of`
/// reads it.
fn channel_count(spec_text: &str) -> (r: Option<u32>)
    ensures
        r == channel_count_of(words_spec(spec_text@)),
{
    let words = split_whitespace(spec_text);
    let ghost ws = texts(words@);
    let mut i: usize = 0;
    assert(ws.skip(0) =~= ws);
    while i < words.len()
        invariant
            i <= words@.len(),
            ws == texts(words@),
            ws == words_spec(spec_text@),
            channel_count_of(ws) == channel_count_of(ws.skip(i as int)),
        decreases words@.len() - i,
    {
        let w = chars_of(words[i].as_str());
        let ghost rest = ws.skip(i as int);
        assert(rest[0] == w@);
        assert(rest.drop_first() =~= ws.skip(i + 1));
        let n = w.len();
        if n >= 2 && w[n - 2] == 'c' && w[n - 1] == 'h' {
            assert(w@.skip(n - 2) =~= "ch"@) by {
                reveal_strlit("ch");
            }
            let digits = slice_chars(&w, 0, n - 2);
            let text = string_of(&digits);
            assert(text@ =~= w@.take(n - 2));
            let parsed = parse_u32(text.as_str());
            if parsed.is_some() {
                return parsed;
            }
        } else {
            assert(!ends_with(w@, "ch"@)) by {
                reveal_strlit("ch");
                if ends_with(w@, "ch"@) {
                    assert(w@.skip(n - 2)[0] == w@[n - 2]);
                    assert(w@.skip(n - 2)[1] == w@[n - 1]);
                }
            }
        }
        i = i + 1;
    }
    assert(ws.skip(i as int) =~= Seq::<Seq<char>>::empty());
    None
}

/// Sink details from their text parts.
fn details_of(name: &Option<String>, owner: &Option<String>, channels: Option<u32>) -> (r: SinkDetails)
    ensures
        sink_view(r) == (opt_view(*name), opt_view(*owner), channels),
{
    SinkDetails { name: name.clone(), owner_module: owner.clone(), channels }
}

/// Whether the optional name is the stream's sink.
fn is_stream_sink(name: &Option<String>) -> (r: bool)
    ensures
        r == (opt_view(*name) == Some(AUDIO_SINK_NAME@)),
{
    match name {
        Some(n) => str_eq(n.as_str(), AUDIO_SINK_NAME),
        None => false,
    }
}

/// The stream's sink, from the output of `pactl list sinks` (`None` when
/// the command could not be run or failed, which reports nothing).
pub fn audio_sink_details(output: Option<&str>) -> (r: SinkDetails)
    ensures
        sink_view(r) == match output {
            Some(text) => sink_scan(lines_spec(text@), no_sink()),
            None => no_sink(),
        },
{
    let text = match output {
        Some(t) => t,
        None => {
            return SinkDetails { name: None, owner_module: None, channels: None };
        },
    };
    let lines = split_lines(text);
    let ghost ls = texts(lines@);
    let mut name: Option<String> = None;
    let mut owner: Option<String> = None;
    let mut channels: Option<u32> = None;
    let mut i: usize = 0;
    assert(ls.skip(0) =~= ls);
    while i < lines.len()
        invariant
            i <= lines@.len(),
            ls == texts(lines@),
            ls == lines_spec(text@),
            output == Some(text),
            sink_scan(ls, no_sink()) == sink_scan(ls.skip(i as int), (opt_view(name), opt_view(owner), channels)),
        decreases lines@.len() - i,
    {
        let raw = lines[i].as_str();
        let ghost rest = ls.skip(i as int);
        assert(rest[0] == raw@);
        assert(rest.drop_first() =~= ls.skip(i + 1));
        if str_starts_with(raw, "Sink #") {
            if is_stream_sink(&name) {
                let ghost cur = (opt_view(name), opt_view(owner), channels);
                assert(is_prefix("Sink #"@, rest[0]));
                assert(sink_scan(rest, cur) == cur);
                return details_of(&name, &owner, channels);
            }
            name = None;
            owner = None;
            channels = None;
        } else {
            let line = trim(raw);
            let l = chars_of(line.as_str());
            if str_starts_with(line.as_str(), "Name:") {
                proof {
                    reveal_strlit("Name:");
                }
                let piece = slice_chars(&l, 5, l.len());
                let rest_text = string_of(&piece);
                assert(rest_text@ =~= after(line@, "Name:"@));
                name = Some(trim(rest_text.as_str()));
            } else if is_stream_sink(&name) {
                if str_starts_with(line.as_str(), "Owner Module:") {
                    proof {
                        reveal_strlit("Owner Module:");
                    }
                    let piece = slice_chars(&l, 13, l.len());
                    let rest_text = string_of(&piece);
                    assert(rest_text@ =~= after(line@, "Owner Module:"@));
                    let o = trim(rest_text.as_str());
                    let oc = chars_of(o.as_str());
                    assert(oc@.subrange(0, oc@.len() as int) =~= oc@);
                    if all_digits_range(&oc, 0, oc.len()) {
                        owner = Some(o);
                    }
                } else if str_starts_with(line.as_str(), "Sample Specification:") {
                    proof {
                        reveal_strlit("Sample Specification:");
                    }
                    let piece = slice_chars(&l, 21, l.len());
                    let rest_text = string_of(&piece);
                    assert(rest_text@ =~= after(line@, "Sample Specification:"@));
                    match channel_count(rest_text.as_str()) {
                        Some(n) => {
                            channels = Some(n);
                        },
                        None => {},
                    }
                }
            }
        }
        i = i + 1;
    }
    assert(ls.skip(i as int) =~= Seq::<Seq<char>>::empty());
    if is_stream_sink(&name) {
        details_of(&name, &owner, channels)
    } else {
        SinkDetails { name: None, owner_module: None, channels: None }
    }
}

// ---------------------------------------------------------------------------
// Sinks left by Sunshine
// ---------------------------------------------------------------------------

/// The owner module of a block whose sink Sunshine made, if it is known.
pub open spec fn sunshine_owner(cur: (Option<Seq<char>>, Option<Seq<char>>)) -> Seq<Seq<char>> {
    match (cur.0, cur.1) {
        (Some(n), Some(o)) => if is_prefix("sink-sunshine-"@, n) {
            seq![o]
        } else {
            Seq::empty()
        },
        _ => Seq::empty(),
    }
}

/// What one trimmed line of a sink's block tells: its name and owner.
pub open spec fn module_step(cur: (Option<Seq<char>>, Option<Seq<char>>), line: Seq<char>) -> (Option<Seq<char>>, Option<Seq<char>>) {
    if is_prefix("Name:"@, line) {
        (Some(trim_spec(after(line, "Name:"@))), cur.1)
    } else if is_prefix("Owner Module:"@, line) {
        let o = trim_spec(after(line, "Owner Module:"@));
        if all_digits(o) {
            (cur.0, Some(o))
        } else {
            cur
        }
    } else {
        cur
    }
}

/// The owner modules of the sinks Sunshine made, block by block, in the
/// order of `pactl list sinks`.
pub open spec fn module_scan(ls: Seq<Seq<char>>, cur: (Option<Seq<char>>, Option<Seq<char>>), found: Seq<Seq<char>>) -> Seq<Seq<char>>
    decreases ls.len(),
{
    if ls.len() == 0 {
        found + sunshine_owner(cur)
    } else if is_prefix("Sink #"@, ls[0]) {
        module_scan(ls.drop_first(), (None, None), found + sunshine_owner(cur))
    } else {
        module_scan(ls.drop_first(), module_step(cur, trim_spec(ls[0])), found)
    }
}

/// The owner modules of the sinks Sunshine made, from `pactl list sinks`.
fn sunshine_owners(text: &str) -> (r: Vec<String>)
    ensures
        texts(r@) == module_scan(lines_spec(text@), (None, None), Seq::empty()),
{
    let lines = split_lines(text);
    let ghost ls = texts(lines@);
    let mut found: Vec<String> = Vec::new();
    let mut name: Option<String> = None;
    let mut owner: Option<String> = None;
    let mut i: usize = 0;
    assert(ls.skip(0) =~= ls);
    assert(texts(found@) =~= Seq::<Seq<char>>::empty());
    while i < lines.len()
        invariant
            i <= lines@.len(),
            ls == texts(lines@),
            ls == lines_spec(text@),
            module_scan(ls, (None, None), Seq::empty()) == module_scan(
                ls.skip(i as int),
                (opt_view(name), opt_view(owner)),
                texts(found@),
            ),
        decreases lines@.len() - i,
    {
        let raw = lines[i].as_str();
        let ghost rest = ls.skip(i as int);
        assert(rest[0] == raw@);
        assert(rest.drop_first() =~= ls.skip(i + 1));
        if str_starts_with(raw, "Sink #") {
            let ghost before = texts(found@);
            flush_owner(&mut found, &name, &owner);
            name = None;
            owner = None;
        } else {
            let line = trim(raw);
            let l = chars_of(line.as_str());
            if str_starts_with(line.as_str(), "Name:") {
                proof {
                    reveal_strlit("Name:");
                }
                let piece = slice_chars(&l, 5, l.len());
                let rest_text = string_of(&piece);
                assert(rest_text@ =~= after(line@, "Name:"@));
                name = Some(trim(rest_text.as_str()));
            } else if str_starts_with(line.as_str(), "Owner Module:") {
                proof {
                    reveal_strlit("Owner Module:");
                }
                let piece = slice_chars(&l, 13, l.len());
                let rest_text = string_of(&piece);
                assert(rest_text@ =~= after(line@, "Owner Module:"@));
                let o = trim(rest_text.as_str());
                let oc = chars_of(o.as_str());
                assert(oc@.subrange(0, oc@.len() as int) =~= oc@);
                if all_digits_range(&oc, 0, oc.len()) {
                    owner = Some(o);
                }
            }
        }
        i = i + 1;
    }
    assert(ls.skip(i as int) =~= Seq::<Seq<char>>::empty());
    flush_owner(&mut found, &name, &owner);
    found
}

/// Appends the owner of a block whose sink Sunshine made.
fn flush_owner(found: &mut Vec<String>, name: &Option<String>, owner: &Option<String>)
    ensures
        texts(final(found)@) == texts(old(found)@) + sunshine_owner((opt_view(*name), opt_view(*owner))),
{
    let ghost before = texts(found@);
    match (name, owner) {
        (Some(n), Some(o)) => {
            if str_starts_with(n.as_str(), "sink-sunshine-") {
                found.push(o.clone());
                assert(texts(found@) =~= before + seq![o@]);
            } else {
                assert(texts(found@) =~= before + Seq::<Seq<char>>::empty());
            }
        },
        _ => {
            assert(texts(found@) =~= before + Seq::<Seq<char>>::empty());
        },
    }
}

/// The owner modules of the sinks Sunshine made, sorted and without
/// repeats, from the output of `pactl list sinks` (`None` when it could not
/// be run or failed).
pub fn sunshine_virtual_sink_modules(output: Option<&str>) -> (r: Vec<String>)
    ensures
        strictly_sorted_texts(texts(r@)),
        forall|m: Seq<char>|
            texts(r@).contains(m) <==> match output {
                Some(text) => module_scan(lines_spec(text@), (None, None), Seq::empty()).contains(m),
                None => false,
            },
{
    match output {
        Some(text) => sort_dedup_texts(sunshine_owners(text)),
        None => Vec::new(),
    }
}

/// The command lines as text.
pub open spec fn commands_view(cmds: Seq<Vec<String>>) -> Seq<Seq<Seq<char>>> {
    cmds.map_values(|c: Vec<String>| texts(c@))
}

/// `pactl unload-module OWNER`.
pub open spec fn unload_command(owner: Seq<char>) -> Seq<Seq<char>> {
    seq!["pactl"@, "unload-module"@, owner]
}

/// The commands that unload the sinks Sunshine left, one per owner module
/// of `sunshine_virtual_sink_modules`, in its order.
pub fn cleanup_sunshine_virtual_sinks(output: Option<&str>) -> (r: Vec<Vec<String>>)
    ensures
        exists|modules: Seq<Seq<char>>|
            {
                &&& strictly_sorted_texts(modules)
                &&& forall|m: Seq<char>|
                    modules.contains(m) <==> match output {
                        Some(text) => module_scan(lines_spec(text@), (None, None), Seq::empty()).contains(m),
                        None => false,
                    }
                &&& commands_view(r@) == modules.map_values(|o: Seq<char>| unload_command(o))
            },
{
    let modules = sunshine_virtual_sink_modules(output);
    let ghost ms = texts(modules@);
    let mut cmds: Vec<Vec<String>> = Vec::new();
    let mut i: usize = 0;
    while i < modules.len()
        invariant
            i <= modules@.len(),
            ms == texts(modules@),
            commands_view(cmds@) == ms.take(i as int).map_values(|o: Seq<char>| unload_command(o)),
        decreases modules@.len() - i,
    {
        let ghost before = commands_view(cmds@);
        let mut c: Vec<String> = Vec::new();
        c.push(owned("pactl"));
        c.push(owned("unload-module"));
        c.push(modules[i].clone());
        assert(texts(c@) =~= unload_command(ms[i as int]));
        cmds.push(c);
        assert(commands_view(cmds@) =~= before.push(unload_command(ms[i as int])));
        assert(ms.take(i + 1).map_values(|o: Seq<char>| unload_command(o)) =~= ms.take(i as int).map_values(
            |o: Seq<char>| unload_command(o),
        ).push(unload_command(ms[i as int])));
        i = i + 1;
    }
    assert(ms.take(i as int) =~= ms);
    cmds
}

// ---------------------------------------------------------------------------
// Streams, volume and defaults
// ---------------------------------------------------------------------------

/// `pactl move-sink-input ID SINK` for the first word of each line that has
/// one.
pub open spec fn move_commands(ls: Seq<Seq<char>>) -> Seq<Seq<Seq<char>>>
    decreases ls.len(),
{
    if ls.len() == 0 {
        Seq::empty()
    } else {
        let rest = move_commands(ls.drop_last());
        let ws = words_spec(ls.last());
        if ws.len() > 0 {
            rest.push(seq!["pactl"@, "move-sink-input"@, ws[0], AUDIO_SINK_NAME@])
        } else {
            rest
        }
    }
}

/// The commands that move every playing stream to the stream's sink, from
/// the output of `pactl list short sink-inputs` (`None` when it could not
/// be run or failed).
pub fn move_audio_streams_to_sink(output: Option<&str>) -> (r: Vec<Vec<String>>)
    ensures
        commands_view(r@) == match output {
            Some(text) => move_commands(lines_spec(text@)),
            None => Seq::empty(),
        },
{
    let mut cmds: Vec<Vec<String>> = Vec::new();
    let text = match output {
        Some(t) => t,
        None => {
            return cmds;
        },
    };
    let lines = split_lines(text);
    let ghost ls = texts(lines@);
    let mut i: usize = 0;
    while i < lines.len()
        invariant
            i <= lines@.len(),
            ls == texts(lines@),
            commands_view(cmds@) == move_commands(ls.take(i as int)),
        decreases lines@.len() - i,
    {
        assert(ls.take(i + 1).drop_last() =~= ls.take(i as int));
        let words = split_whitespace(lines[i].as_str());
        if words.len() > 0 {
            let ghost before = commands_view(cmds@);
            let mut c: Vec<String> = Vec::new();
            c.push(owned("pactl"));
            c.push(owned("move-sink-input"));
            c.push(words[0].clone());
            c.push(owned(AUDIO_SINK_NAME));
            assert(texts(words@)[0] == words@[0]@);
            assert(texts(c@) =~= seq!["pactl"@, "move-sink-input"@, words@[0]@, AUDIO_SINK_NAME@]);
            cmds.push(c);
            assert(commands_view(cmds@) =~= before.push(texts(c@)));
        }
        i = i + 1;
    }
    assert(ls.take(i as int) =~= ls);
    cmds
}

/// `n` copies of `100%`.
pub open spec fn full_volumes(n: nat) -> Seq<Seq<char>> {
    Seq::new(n, |i: int| "100%"@)
}

/// The sink's monitor source.
pub open spec fn monitor_name() -> Seq<char> {
    AUDIO_SINK_NAME@ + ".monitor"@
}

/// The commands that set the sink and its monitor to full volume on every
/// channel.
pub fn set_audio_volume(channels: u32) -> (r: Vec<Vec<String>>)
    ensures
        commands_view(r@) == seq![
            seq!["pactl"@, "set-sink-volume"@, AUDIO_SINK_NAME@] + full_volumes(channels as nat),
            seq!["pactl"@, "set-source-volume"@, monitor_name()] + full_volumes(channels as nat),
        ],
{
    let mut sink: Vec<String> = Vec::new();
    sink.push(owned("pactl"));
    sink.push(owned("set-sink-volume"));
    sink.push(owned(AUDIO_SINK_NAME));
    let mut monitor = owned(AUDIO_SINK_NAME);
    push_str(&mut monitor, ".monitor");
    let mut source: Vec<String> = Vec::new();
    source.push(owned("pactl"));
    source.push(owned("set-source-volume"));
    source.push(monitor);
    let ghost sink0 = texts(sink@);
    let ghost source0 = texts(source@);
    assert(sink0 =~= seq!["pactl"@, "set-sink-volume"@, AUDIO_SINK_NAME@]);
    assert(source0 =~= seq!["pactl"@, "set-source-volume"@, monitor_name()]);
    assert(sink0 + full_volumes(0) =~= sink0);
    assert(source0 + full_volumes(0) =~= source0);
    let mut i: u32 = 0;
    while i < channels
        invariant
            i <= channels,
            texts(sink@) == sink0 + full_volumes(i as nat),
            texts(source@) == source0 + full_volumes(i as nat),
        decreases channels - i,
    {
        let ghost b1 = texts(sink@);
        let ghost b2 = texts(source@);
        sink.push(owned("100%"));
        source.push(owned("100%"));
        assert(texts(sink@) =~= b1.push("100%"@));
        assert(texts(source@) =~= b2.push("100%"@));
        assert(full_volumes((i + 1) as nat) =~= full_volumes(i as nat).push("100%"@));
        assert(sink0 + full_volumes((i + 1) as nat) =~= (sink0 + full_volumes(i as nat)).push("100%"@));
        assert(source0 + full_volumes((i + 1) as nat) =~= (source0 + full_volumes(i as nat)).push("100%"@));
        i = i + 1;
    }
    let mut cmds: Vec<Vec<String>> = Vec::new();
    cmds.push(sink);
    cmds.push(source);
    assert(commands_view(cmds@) =~= seq![
        seq!["pactl"@, "set-sink-volume"@, AUDIO_SINK_NAME@] + full_volumes(channels as nat),
        seq!["pactl"@, "set-source-volume"@, monitor_name()] + full_volumes(channels as nat),
    ]);
    cmds
}

/// The commands that make the sink and its monitor the defaults, and, when
/// WirePlumber reports the sink's node id, make it WirePlumber's default.
/// (Playing streams are then moved to the sink.)
pub fn set_audio_defaults(node_id: Option<&str>) -> (r: Vec<Vec<String>>)
    ensures
        commands_view(r@) == seq![
            seq!["pactl"@, "set-default-sink"@, AUDIO_SINK_NAME@],
            seq!["pactl"@, "set-default-source"@, monitor_name()],
        ] + match node_id {
            Some(id) => seq![seq!["wpctl"@, "set-default"@, id@]],
            None => Seq::empty(),
        },
{
    let mut cmds: Vec<Vec<String>> = Vec::new();
    let mut a: Vec<String> = Vec::new();
    a.push(owned("pactl"));
    a.push(owned("set-default-sink"));
    a.push(owned(AUDIO_SINK_NAME));
    let mut monitor = owned(AUDIO_SINK_NAME);
    push_str(&mut monitor, ".monitor");
    let mut b: Vec<String> = Vec::new();
    b.push(owned("pactl"));
    b.push(owned("set-default-source"));
    b.push(monitor);
    assert(texts(a@) =~= seq!["pactl"@, "set-default-sink"@, AUDIO_SINK_NAME@]);
    assert(texts(b@) =~= seq!["pactl"@, "set-default-source"@, monitor_name()]);
    cmds.push(a);
    cmds.push(b);
    if let Some(id) = node_id {
        let mut c: Vec<String> = Vec::new();
        c.push(owned("wpctl"));
        c.push(owned("set-default"));
        c.push(owned(id));
        assert(texts(c@) =~= seq!["wpctl"@, "set-default"@, id@]);
        cmds.push(c);
    }
    assert(commands_view(cmds@) =~= seq![
        seq!["pactl"@, "set-default-sink"@, AUDIO_SINK_NAME@],
        seq!["pactl"@, "set-default-source"@, monitor_name()],
    ] + match node_id {
        Some(id) => seq![seq!["wpctl"@, "set-default"@, id@]],
        None => Seq::empty(),
    });
    cmds
}

// ---------------------------------------------------------------------------
// Making the sink match the client
// ---------------------------------------------------------------------------

/// Why the stream's sink could not be made to match.
pub enum AudioSinkError {
    /// The channel count has no channel layout.
    UnsupportedChannels { channels: u32 },
    /// The sink has the wrong channel count and its owner module is unknown.
    OwnerUnknown,
    /// Unloading the sink's owner module failed.
    RecreateFailed { channels: u32 },
    /// Loading the sink failed.
    CreateFailed,
}

/// What making the sink match comes to: the channel count, the command
/// that unloads a sink of the wrong channel count, the command that loads
/// the sink, then the volume commands. (The defaults are then set.)
pub struct AudioSinkPlan {
    pub channels: u32,
    pub unload: Option<Vec<String>>,
    pub load: Option<Vec<String>>,
    pub volume: Vec<Vec<String>>,
}

/// The channel count used: the requested count, else the fallback, kept
/// only when it is 2, 6 or 8, else the fallback.
pub open spec fn sink_channels(requested: Option<u32>, fallback: u32) -> u32 {
    let wanted = match requested {
        Some(c) => c,
        None => fallback,
    };
    audio_channels_spec(nat_text(wanted as nat), fallback)
}

/// `pactl load-module module-null-sink` with the sink's name, 48 kHz, the
/// channel count and layout, and its description.
pub open spec fn load_command(channels: u32, map: Seq<char>) -> Seq<Seq<char>> {
    seq![
        "pactl"@,
        "load-module"@,
        "module-null-sink"@,
        "sink_name="@ + AUDIO_SINK_NAME@,
        "rate=48000"@,
        "channels="@ + nat_text(channels as nat),
        "channel_map="@ + map,
        "sink_properties=device.description="@ + AUDIO_SINK_DESCRIPTION@,
    ]
}

/// The sink exists with another channel count than wanted.
pub open spec fn needs_recreate(details: SinkDetails, channels: u32) -> bool {
    details.name is Some && details.channels != Some(channels)
}

/// Plans how the stream's sink is made to match the client: with a channel
/// layout for the count, a sink of another count is unloaded (its owner
/// must be known) and the sink is loaded when it was missing or unloaded.
pub fn ensure_audio_sink(details: &SinkDetails, requested: Option<u32>, fallback: u32) -> (r: Result<AudioSinkPlan, AudioSinkError>)
    ensures
        ({
            let channels = sink_channels(requested, fallback);
            match audio_channel_map_spec(channels) {
                None => r matches Err(AudioSinkError::UnsupportedChannels { channels: c }) && c == channels,
                Some(map) => if needs_recreate(*details, channels) && details.owner_module is None {
                    r matches Err(AudioSinkError::OwnerUnknown)
                } else {
                    r matches Ok(plan) && plan.channels == channels && match plan.unload {
                        Some(u) => needs_recreate(*details, channels) && texts(u@) == seq![
                            "pactl"@,
                            "unload-module"@,
                            details.owner_module.unwrap()@,
                        ],
                        None => !needs_recreate(*details, channels),
                    } && match plan.load {
                        Some(l) => (details.name is None || needs_recreate(*details, channels))
                            && texts(l@) == load_command(channels, map),
                        None => details.name is Some && !needs_recreate(*details, channels),
                    } && commands_view(plan.volume@) == seq![
                        seq!["pactl"@, "set-sink-volume"@, AUDIO_SINK_NAME@] + full_volumes(channels as nat),
                        seq!["pactl"@, "set-source-volume"@, monitor_name()] + full_volumes(channels as nat),
                    ]
                },
            }
        }),
{
    let wanted = match requested {
        Some(c) => c,
        None => fallback,
    };
    let text = u32_text(wanted);
    let channels = sanitize_audio_channels(text.as_str(), fallback);
    let map = match audio_channel_map(channels) {
        Some(m) => m,
        None => {
            return Err(AudioSinkError::UnsupportedChannels { channels });
        },
    };
    let recreate = details.name.is_some() && details.channels != Some(channels);
    let mut unload: Option<Vec<String>> = None;
    if recreate {
        match &details.owner_module {
            None => {
                return Err(AudioSinkError::OwnerUnknown);
            },
            Some(owner) => {
                let mut c: Vec<String> = Vec::new();
                c.push(owned("pactl"));
                c.push(owned("unload-module"));
                c.push(owner.clone());
                assert(texts(c@) =~= seq!["pactl"@, "unload-module"@, owner@]);
                unload = Some(c);
            },
        }
    }
    let mut load: Option<Vec<String>> = None;
    if details.name.is_none() || recreate {
        let mut sink_arg = owned("sink_name=");
        push_str(&mut sink_arg, AUDIO_SINK_NAME);
        let mut channels_arg = owned("channels=");
        let n = u32_text(channels);
        push_str(&mut channels_arg, n.as_str());
        let mut map_arg = owned("channel_map=");
        push_str(&mut map_arg, map);
        let mut props_arg = owned("sink_properties=device.description=");
        push_str(&mut props_arg, AUDIO_SINK_DESCRIPTION);
        let mut c: Vec<String> = Vec::new();
        c.push(owned("pactl"));
        c.push(owned("load-module"));
        c.push(owned("module-null-sink"));
        c.push(sink_arg);
        c.push(owned("rate=48000"));
        c.push(channels_arg);
        c.push(map_arg);
        c.push(props_arg);
        assert(texts(c@) =~= load_command(channels, map@));
        load = Some(c);
    }
    let volume = set_audio_volume(channels);
    Ok(AudioSinkPlan { channels, unload, load, volume })
}

impl AudioSinkError {
    /// The message that explains the error.
    pub fn message(&self) -> (r: String)
        ensures
            r@ == match *self {
                AudioSinkError::UnsupportedChannels { channels } => "unsupported audio channel count: "@ + nat_text(channels as nat),
                AudioSinkError::OwnerUnknown => "cannot recreate "@ + AUDIO_SINK_NAME@ + ": owner module is unknown"@,
                AudioSinkError::RecreateFailed { channels } => "failed to recreate "@ + AUDIO_SINK_NAME@ + " with "@
                    + nat_text(channels as nat) + " channels"@,
                AudioSinkError::CreateFailed => "failed to create "@ + AUDIO_SINK_NAME@ + " PipeWire sink"@,
            },
    {
        match self {
            AudioSinkError::UnsupportedChannels { channels } => {
                let mut out = owned("unsupported audio channel count: ");
                let n = u32_text(*channels);
                push_str(&mut out, n.as_str());
                out
            },
            AudioSinkError::OwnerUnknown => {
                let mut out = owned("cannot recreate ");
                push_str(&mut out, AUDIO_SINK_NAME);
                push_str(&mut out, ": owner module is unknown");
                out
            },
            AudioSinkError::RecreateFailed { channels } => {
                let mut out = owned("failed to recreate ");
                push_str(&mut out, AUDIO_SINK_NAME);
                push_str(&mut out, " with ");
                let n = u32_text(*channels);
                push_str(&mut out, n.as_str());
                push_str(&mut out, " channels");
                out
            },
            AudioSinkError::CreateFailed => {
                let mut out = owned("failed to create ");
                push_str(&mut out, AUDIO_SINK_NAME);
                push_str(&mut out, " PipeWire sink");
                out
            },
        }
    }
}

} // verus!
