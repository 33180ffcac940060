//! Choosing a GStreamer video encoder and building the streaming pipeline.
//!
//! The pipeline configuration lists, per codec, the encoders to try in
//! order. An encoder is usable when every GStreamer element it needs is
//! installed and the hardware it needs was found. Which elements are
//! installed, and what hardware there is, are handed in as plain values.
use vstd::prelude::*;
use crate::lines::{join_spec, join_with, lemma_first_of_bounds, lines_spec, split_lines, texts};
use crate::order::{sort_texts, sorted_texts};
use crate::table::{find_key, get_text, has_text, lemma_text_key_index, lookup, pair_texts, text_lookup};
use crate::text::{
    chars_of, concat3, contains_text, find_first_of, first_of, is_prefix, nat_text, owned, push_char,
    push_str, slice_chars, str_contains, str_eq, str_starts_with, string_of, u32_text,
};

verus! {

broadcast use vstd::seq_lib::group_to_multiset_ensures;

/// One way to encode a codec: the GStreamer elements it needs, whether it
/// runs on the GPU, and its pipeline fragment (a template).
pub struct EncoderEntry {
    pub name: String,
    pub elements: Vec<String>,
    pub hardware: bool,
    pub pipeline: String,
}

/// The pipeline configuration. Each table is read like a map whose keys
/// are the first components; `defaults` holds the default template values
/// as text.
pub struct PipelineConfig {
    pub defaults: Vec<(String, String)>,
    pub video_sources: Vec<(String, String)>,
    pub payloader: Vec<(String, String)>,
    pub encoders: Vec<(String, Vec<EncoderEntry>)>,
}

/// The GPU devices found: the DRM render nodes, the codecs that VA-API can
/// encode on the first of them, and whether an NVIDIA device exists.
pub struct HardwareProbe {
    pub render_nodes: Vec<String>,
    pub vaapi_encode: Vec<String>,
    pub nvidia_devices: bool,
}

// ---------------------------------------------------------------------------
// What an encoder lacks
// ---------------------------------------------------------------------------

/// The elements that are not among the installed ones, in order.
pub open spec fn missing_of(elements: Seq<Seq<char>>, present: Seq<Seq<char>>) -> Seq<Seq<char>>
    decreases elements.len(),
{
    if elements.len() == 0 {
        Seq::empty()
    } else {
        let rest = missing_of(elements.drop_last(), present);
        if present.contains(elements.last()) {
            rest
        } else {
            rest.push(elements.last())
        }
    }
}

/// The elements of `enc` that are not installed.
pub open spec fn missing_elements_spec(enc: EncoderEntry, present: Seq<Seq<char>>) -> Seq<Seq<char>> {
    missing_of(texts(enc.elements@), present)
}

/// The elements of `enc` that are not installed, in the encoder's order.
pub fn missing_elements(enc: &EncoderEntry, present: &[String]) -> (r: Vec<String>)
    ensures
        texts(r@) == missing_elements_spec(*enc, texts(present@)),
{
    let ghost els = texts(enc.elements@);
    let mut out: Vec<String> = Vec::new();
    let mut i: usize = 0;
    while i < enc.elements.len()
        invariant
            i <= enc.elements@.len(),
            els == texts(enc.elements@),
            texts(out@) == missing_of(els.take(i as int), texts(present@)),
        decreases enc.elements@.len() - i,
    {
        let el = &enc.elements[i];
        assert(els.take(i + 1).drop_last() =~= els.take(i as int));
        if !has_text(present, el.as_str()) {
            let ghost before = texts(out@);
            out.push(el.clone());
            assert(texts(out@) =~= before.push(el@));
        }
        i = i + 1;
    }
    assert(els.take(i as int) =~= els);
    out
}

/// Hardware features that `enc` needs and the probe did not find: VA-API
/// encoders need a render node and VA-API encoding of the codec, QSV
/// encoders a render node, NVENC encoders an NVIDIA device.
pub open spec fn missing_features_spec(codec: Seq<char>, name: Seq<char>, hw: HardwareProbe) -> Seq<
    Seq<char>,
> {
    let no_node: Seq<Seq<char>> = if hw.render_nodes@.len() == 0 {
        seq!["render-node"@]
    } else {
        Seq::empty()
    };
    if is_prefix("vaapi-"@, name) {
        no_node + if texts(hw.vaapi_encode@).contains(codec) {
            Seq::empty()
        } else {
            seq!["vaapi-"@ + codec + "-encode"@]
        }
    } else if is_prefix("qsv-"@, name) {
        no_node
    } else if is_prefix("nvcodec-"@, name) && !hw.nvidia_devices {
        seq!["nvidia-device"@]
    } else {
        Seq::empty()
    }
}

/// The hardware features that `enc` needs for `codec` and lacks.
pub fn encoder_missing_features(codec: &str, enc: &EncoderEntry, hardware: &HardwareProbe) -> (r:
    Vec<String>)
    ensures
        texts(r@) == missing_features_spec(codec@, enc.name@, *hardware),
{
    let mut missing: Vec<String> = Vec::new();
    let name = enc.name.as_str();
    if str_starts_with(name, "vaapi-") {
        if hardware.render_nodes.len() == 0 {
            missing.push(owned("render-node"));
        }
        if !has_text(&hardware.vaapi_encode, codec) {
            missing.push(concat3("vaapi-", codec, "-encode"));
        }
    } else if str_starts_with(name, "qsv-") {
        if hardware.render_nodes.len() == 0 {
            missing.push(owned("render-node"));
        }
    } else if str_starts_with(name, "nvcodec-") && !hardware.nvidia_devices {
        missing.push(owned("nvidia-device"));
    }
    assert(texts(missing@) =~= missing_features_spec(codec@, enc.name@, *hardware));
    missing
}

/// Every element of `enc` is installed and no hardware feature is lacking.
pub open spec fn usable_spec(codec: Seq<char>, enc: EncoderEntry, present: Seq<Seq<char>>, hw: HardwareProbe) -> bool {
    missing_elements_spec(enc, present).len() == 0 && missing_features_spec(codec, enc.name@, hw).len()
        == 0
}

/// Whether `enc` can encode `codec` here.
pub fn encoder_is_usable(codec: &str, enc: &EncoderEntry, present: &[String], hardware: &HardwareProbe) -> (r: bool)
    ensures
        r == usable_spec(codec@, *enc, texts(present@), *hardware),
{
    let missing = missing_elements(enc, present);
    if missing.len() > 0 {
        return false;
    }
    let features = encoder_missing_features(codec, enc, hardware);
    features.len() == 0
}

// ---------------------------------------------------------------------------
// Choosing an encoder
// ---------------------------------------------------------------------------

/// The text of an optional string slice.
pub open spec fn opt_text(o: Option<&str>) -> Option<Seq<char>> {
    match o {
        Some(s) => Some(s@),
        None => None,
    }
}

/// `enc` is considered: it has the requested name, or none was requested.
pub open spec fn in_pool(enc: EncoderEntry, requested: Option<Seq<char>>) -> bool {
    match requested {
        Some(n) => enc.name@ == n,
        None => true,
    }
}

/// `enc` is considered, usable, and on the GPU if `need_hw`.
pub open spec fn candidate(
    enc: EncoderEntry,
    codec: Seq<char>,
    requested: Option<Seq<char>>,
    present: Seq<Seq<char>>,
    hw: HardwareProbe,
    need_hw: bool,
) -> bool {
    in_pool(enc, requested) && (!need_hw || enc.hardware) && usable_spec(codec, enc, present, hw)
}

/// Index of the first candidate at or after `lo`, or the number of encoders.
pub open spec fn first_candidate(
    encs: Seq<EncoderEntry>,
    lo: int,
    codec: Seq<char>,
    requested: Option<Seq<char>>,
    present: Seq<Seq<char>>,
    hw: HardwareProbe,
    need_hw: bool,
) -> int
    decreases encs.len() - lo,
{
    if lo >= encs.len() {
        encs.len() as int
    } else if candidate(encs[lo], codec, requested, present, hw, need_hw) {
        lo
    } else {
        first_candidate(encs, lo + 1, codec, requested, present, hw, need_hw)
    }
}

proof fn lemma_first_candidate(
    encs: Seq<EncoderEntry>,
    lo: int,
    codec: Seq<char>,
    requested: Option<Seq<char>>,
    present: Seq<Seq<char>>,
    hw: HardwareProbe,
    need_hw: bool,
    k: int,
)
    requires
        0 <= lo <= k <= encs.len(),
        forall|j: int|
            lo <= j < k ==> !candidate(#[trigger] encs[j], codec, requested, present, hw, need_hw),
        k == encs.len() || candidate(encs[k], codec, requested, present, hw, need_hw),
    ensures
        first_candidate(encs, lo, codec, requested, present, hw, need_hw) == k,
    decreases k - lo,
{
    if lo < k {
        lemma_first_candidate(encs, lo + 1, codec, requested, present, hw, need_hw, k);
    }
}

/// For each considered encoder, its name and all that it lacks: missing
/// elements first, then missing hardware features.
pub open spec fn pool_details(
    encs: Seq<EncoderEntry>,
    codec: Seq<char>,
    requested: Option<Seq<char>>,
    present: Seq<Seq<char>>,
    hw: HardwareProbe,
) -> Seq<(Seq<char>, Seq<Seq<char>>)>
    decreases encs.len(),
{
    if encs.len() == 0 {
        Seq::empty()
    } else {
        let rest = pool_details(encs.drop_last(), codec, requested, present, hw);
        let e = encs.last();
        if in_pool(e, requested) {
            rest.push(
                (e.name@, missing_elements_spec(e, present) + missing_features_spec(codec, e.name@, hw)),
            )
        } else {
            rest
        }
    }
}

/// What choosing an encoder comes to.
pub enum ChoiceOutcome {
    /// The encoder at this index of the codec's list.
    Chosen(int),
    UnsupportedCodec,
    NotConfigured,
    NoHardwareAv1,
    NoUsable,
}

/// How an encoder is chosen for `codec`. Without a requested name, the
/// first usable hardware encoder is taken; for AV1 there is no fallback to
/// software; otherwise the first usable encoder is taken. With a requested
/// name, only encoders of that name are considered, and the first usable
/// one is taken.
pub open spec fn choice_spec(
    encoders: Seq<(String, Vec<EncoderEntry>)>,
    codec: Seq<char>,
    requested: Option<Seq<char>>,
    present: Seq<Seq<char>>,
    hw: HardwareProbe,
) -> ChoiceOutcome {
    match lookup(encoders, codec) {
        None => ChoiceOutcome::UnsupportedCodec,
        Some(list) => {
            let encs = list@;
            let hw_first = first_candidate(encs, 0, codec, requested, present, hw, true);
            let any_first = first_candidate(encs, 0, codec, requested, present, hw, false);
            if requested is Some && !(exists|j: int|
                0 <= j < encs.len() && in_pool(#[trigger] encs[j], requested)) {
                ChoiceOutcome::NotConfigured
            } else if requested is None && hw_first < encs.len() {
                ChoiceOutcome::Chosen(hw_first)
            } else if requested is None && codec == "av1"@ {
                ChoiceOutcome::NoHardwareAv1
            } else if any_first < encs.len() {
                ChoiceOutcome::Chosen(any_first)
            } else {
                ChoiceOutcome::NoUsable
            }
        },
    }
}

/// Why no encoder could be chosen.
pub enum EncoderError {
    /// The configuration has no encoders for the codec.
    UnsupportedCodec { codec: String },
    /// No encoder of the requested name is configured for the codec.
    NotConfigured { name: String, codec: String },
    /// No hardware AV1 encoder is usable, and none was requested by name.
    NoHardwareAv1,
    /// No considered encoder is usable; for each, its name and what it lacks.
    NoUsable { codec: String, details: Vec<(String, Vec<String>)> },
}

/// The names and lacks of `details`, as text.
pub open spec fn details_view(details: Seq<(String, Vec<String>)>) -> Seq<(Seq<char>, Seq<Seq<char>>)> {
    details.map_values(|d: (String, Vec<String>)| (d.0@, texts(d.1@)))
}

/// The error fits the outcome of choosing.
pub open spec fn error_fits(
    e: EncoderError,
    outcome: ChoiceOutcome,
    encs: Option<Seq<EncoderEntry>>,
    codec: Seq<char>,
    requested: Option<Seq<char>>,
    present: Seq<Seq<char>>,
    hw: HardwareProbe,
) -> bool {
    match outcome {
        ChoiceOutcome::UnsupportedCodec => e matches EncoderError::UnsupportedCodec { codec: c }
            && c@ == codec,
        ChoiceOutcome::NotConfigured => e matches EncoderError::NotConfigured { name, codec: c }
            && requested == Some(name@) && c@ == codec,
        ChoiceOutcome::NoHardwareAv1 => e is NoHardwareAv1,
        ChoiceOutcome::NoUsable => e matches EncoderError::NoUsable { codec: c, details } && c@
            == codec && details_view(details@) == pool_details(
            encs.unwrap(),
            codec,
            requested,
            present,
            hw,
        ),
        ChoiceOutcome::Chosen(_) => false,
    }
}

/// The encoders configured for a codec.
pub open spec fn codec_list(config: PipelineConfig, codec: Seq<char>) -> Option<Seq<EncoderEntry>> {
    match lookup(config.encoders@, codec) {
        Some(list) => Some(list@),
        None => None,
    }
}

/// Chooses the encoder for `codec`, as `choice_spec` describes; `present`
/// lists the installed GStreamer elements.
pub fn choose_encoder<'a>(
    config: &'a PipelineConfig,
    codec: &str,
    requested_name: Option<&str>,
    present: &[String],
    hardware: &HardwareProbe,
) -> (r: Result<&'a EncoderEntry, EncoderError>)
    ensures
        match choice_spec(config.encoders@, codec@, opt_text(requested_name), texts(present@), *hardware) {
            ChoiceOutcome::Chosen(j) => r matches Ok(e) && *e == codec_list(*config, codec@).unwrap()[j],
            outcome => r matches Err(e) && error_fits(
                e,
                outcome,
                codec_list(*config, codec@),
                codec@,
                opt_text(requested_name),
                texts(present@),
                *hardware,
            ),
        },
{
    let ghost requested = opt_text(requested_name);
    let ghost pres = texts(present@);
    let idx = find_key(&config.encoders, codec);
    if idx >= config.encoders.len() {
        return Err(EncoderError::UnsupportedCodec { codec: owned(codec) });
    }
    let encoders = &config.encoders[idx].1;
    let ghost encs = encoders@;
    assert(codec_list(*config, codec@) == Some(encs));
    let n = encoders.len();
    if let Some(name) = requested_name {
        let mut j: usize = 0;
        let mut found = false;
        while j < n
            invariant
                j <= n == encs.len(),
                encs == encoders@,
                found ==> exists|k: int| 0 <= k < encs.len() && in_pool(#[trigger] encs[k], requested),
                !found ==> forall|k: int| 0 <= k < j ==> !in_pool(#[trigger] encs[k], requested),
                requested == Some(name@),
            decreases n - j,
        {
            if str_eq(encoders[j].name.as_str(), name) {
                assert(in_pool(encs[j as int], requested));
                found = true;
            }
            j = j + 1;
        }
        if !found {
            return Err(EncoderError::NotConfigured { name: owned(name), codec: owned(codec) });
        }
    }
    if requested_name.is_none() {
        let mut j: usize = 0;
        while j < n
            invariant
                j <= n == encs.len(),
                encs == encoders@,
                requested == opt_text(requested_name),
                pres == texts(present@),
                codec_list(*config, codec@) == Some(encs),
                requested is None,
                forall|k: int| 0 <= k < j ==> !candidate(#[trigger] encs[k], codec@, requested, pres, *hardware, true),
            decreases n - j,
        {
            let e = &encoders[j];
            if e.hardware && encoder_is_usable(codec, e, present, hardware) {
                proof {
                    lemma_first_candidate(encs, 0, codec@, requested, pres, *hardware, true, j as int);
                }
                return Ok(e);
            }
            j = j + 1;
        }
        proof {
            lemma_first_candidate(encs, 0, codec@, requested, pres, *hardware, true, n as int);
        }
        if str_eq(codec, "av1") {
            return Err(EncoderError::NoHardwareAv1);
        }
    }
    let mut j: usize = 0;
    while j < n
        invariant
            j <= n == encs.len(),
            encs == encoders@,
            requested == opt_text(requested_name),
            pres == texts(present@),
            codec_list(*config, codec@) == Some(encs),
            requested is None ==> first_candidate(encs, 0, codec@, requested, pres, *hardware, true)
                == encs.len() && codec@ != "av1"@,
            requested is Some ==> exists|k: int|
                0 <= k < encs.len() && in_pool(#[trigger] encs[k], requested),
            forall|k: int| 0 <= k < j ==> !candidate(#[trigger] encs[k], codec@, requested, pres, *hardware, false),
        decreases n - j,
    {
        let e = &encoders[j];
        let considered = match requested_name {
            Some(name) => str_eq(e.name.as_str(), name),
            None => true,
        };
        if considered && encoder_is_usable(codec, e, present, hardware) {
            proof {
                lemma_first_candidate(encs, 0, codec@, requested, pres, *hardware, false, j as int);
            }
            return Ok(e);
        }
        j = j + 1;
    }
    proof {
        lemma_first_candidate(encs, 0, codec@, requested, pres, *hardware, false, n as int);
    }
    let details = pool_lacks(encoders, codec, requested_name, present, hardware);
    Err(EncoderError::NoUsable { codec: owned(codec), details })
}

/// For each considered encoder, its name and what it lacks.
fn pool_lacks(
    encoders: &Vec<EncoderEntry>,
    codec: &str,
    requested_name: Option<&str>,
    present: &[String],
    hardware: &HardwareProbe,
) -> (r: Vec<(String, Vec<String>)>)
    ensures
        details_view(r@) == pool_details(encoders@, codec@, opt_text(requested_name), texts(present@), *hardware),
{
    let ghost encs = encoders@;
    let ghost requested = opt_text(requested_name);
    let mut out: Vec<(String, Vec<String>)> = Vec::new();
    let mut j: usize = 0;
    while j < encoders.len()
        invariant
            j <= encs.len(),
            encs == encoders@,
            requested == opt_text(requested_name),
            details_view(out@) == pool_details(encs.take(j as int), codec@, requested, texts(present@), *hardware),
        decreases encs.len() - j,
    {
        let e = &encoders[j];
        assert(encs.take(j + 1).drop_last() =~= encs.take(j as int));
        let considered = match requested_name {
            Some(name) => str_eq(e.name.as_str(), name),
            None => true,
        };
        if considered {
            let mut lacks = missing_elements(e, present);
            let mut features = encoder_missing_features(codec, e, hardware);
            let ghost a = texts(lacks@);
            let ghost b = texts(features@);
            lacks.append(&mut features);
            assert(texts(lacks@) =~= a + b);
            let ghost before = details_view(out@);
            out.push((e.name.clone(), lacks));
            assert(details_view(out@) =~= before.push((e.name@, a + b)));
        }
        j = j + 1;
    }
    assert(encs.take(j as int) =~= encs);
    out
}

// ---------------------------------------------------------------------------
// Templates and the pipeline
// ---------------------------------------------------------------------------

/// A template with each `{key}` replaced by the key's value. A key without
/// a value stays as written; an opening brace without a closing one takes
/// the rest of the template as its key and is then closed.
pub open spec fn render_spec(t: Seq<char>, values: Seq<(Seq<char>, Seq<char>)>) -> Seq<char>
    decreases t.len(),
{
    if t.len() == 0 {
        Seq::empty()
    } else if t[0] == '{' {
        let rest = t.drop_first();
        let k = first_of(rest, '}', '}');
        proof {
            lemma_first_of_bounds(rest, '}', '}');
        }
        let key = rest.take(k);
        let after = if k < rest.len() {
            rest.skip(k + 1)
        } else {
            Seq::empty()
        };
        let piece = match text_lookup(values, key) {
            Some(v) => v,
            None => seq!['{'] + key + seq!['}'],
        };
        piece + render_spec(after, values)
    } else {
        seq![t[0]] + render_spec(t.drop_first(), values)
    }
}

/// Fills a template with the values, as `render_spec` describes.
pub fn render_template(template: &str, values: &[(String, String)]) -> (out: String)
    ensures
        out@ == render_spec(template@, pair_texts(values@)),
{
    let ghost vals = pair_texts(values@);
    let s = chars_of(template);
    let n = s.len();
    let mut out = String::new();
    let mut pos: usize = 0;
    assert(s@.skip(0) =~= s@);
    assert(out@ + render_spec(s@, vals) =~= render_spec(s@, vals));
    while pos < n
        invariant
            n == s@.len(),
            s@ == template@,
            vals == pair_texts(values@),
            pos <= n,
            render_spec(s@, vals) == out@ + render_spec(s@.skip(pos as int), vals),
        decreases n - pos,
    {
        let ghost t = s@.skip(pos as int);
        let ghost before = out@;
        if s[pos] == '{' {
            let ghost rest = t.drop_first();
            assert(s@.subrange(pos + 1, n as int) =~= rest);
            let k = find_first_of(&s, pos + 1, n, '}', '}');
            proof {
                lemma_first_of_bounds(rest, '}', '}');
            }
            let key_chars = slice_chars(&s, pos + 1, k);
            let key = string_of(&key_chars);
            assert(key@ =~= rest.take(k - pos - 1));
            match get_text(values, key.as_str()) {
                Some(v) => {
                    push_str(&mut out, v.as_str());
                },
                None => {
                    push_char(&mut out, '{');
                    push_str(&mut out, key.as_str());
                    push_char(&mut out, '}');
                    assert(out@ =~= before + (seq!['{'] + key@ + seq!['}']));
                },
            }
            if k < n {
                assert(rest.skip(k - pos - 1 + 1) =~= s@.skip(k + 1));
                pos = k + 1;
            } else {
                assert(s@.skip(n as int) =~= Seq::<char>::empty());
                pos = n;
            }
        } else {
            push_char(&mut out, s[pos]);
            assert(t.drop_first() =~= s@.skip(pos + 1));
            pos = pos + 1;
        }
        assert(out@ + render_spec(s@.skip(pos as int), vals) =~= before + render_spec(t, vals));
    }
    assert(s@.skip(pos as int) =~= Seq::<char>::empty());
    assert(out@ + Seq::<char>::empty() =~= out@);
    out
}

/// What the streaming pipeline is built for.
pub struct PipelineRequest<'a> {
    pub codec: &'a str,
    pub encoder: Option<&'a str>,
    pub source: &'a str,
    pub pipewire_node: &'a str,
    pub width: u32,
    pub height: u32,
    pub fps: u32,
    pub bitrate: u32,
    pub vbv_buffer: u32,
    pub payload_mtu: u32,
    pub host: &'a str,
    pub port: u16,
}

/// The values a template can use: the request's, then the configured
/// defaults (a key given by the request keeps the request's value).
pub open spec fn template_values(req: PipelineRequest, config: PipelineConfig) -> Seq<(Seq<char>, Seq<char>)> {
    seq![
        ("width"@, nat_text(req.width as nat)),
        ("height"@, nat_text(req.height as nat)),
        ("fps"@, nat_text(req.fps as nat)),
        ("bitrate_kbps"@, nat_text(req.bitrate as nat)),
        ("vbv_buffer_kbits"@, nat_text(req.vbv_buffer as nat)),
        ("payload_mtu"@, nat_text(req.payload_mtu as nat)),
        ("pipewire_node"@, req.pipewire_node@),
    ] + pair_texts(config.defaults@)
}

/// The whole pipeline: source, a leaky queue, the encoder, the payloader,
/// another leaky queue, and a UDP sink.
pub open spec fn pipeline_text(
    source: Seq<char>,
    encode: Seq<char>,
    payloader: Seq<char>,
    host: Seq<char>,
    port: nat,
) -> Seq<char> {
    source + " ! queue max-size-buffers=2 leaky=downstream ! "@ + encode + " ! "@ + payloader
        + " ! queue max-size-buffers=2 leaky=downstream ! udpsink host="@ + host + " port="@
        + nat_text(port) + " sync=false async=false"@
}

/// Why no pipeline could be built.
pub enum PipelineError {
    /// No encoder could be chosen.
    Encoder(EncoderError),
    /// The configuration has no video source of that name.
    UnknownSource { source: String },
    /// The configuration has no payloader for the codec.
    MissingPayloader { codec: String },
}

/// The value table of `template_values`.
fn request_values(req: &PipelineRequest, config: &PipelineConfig) -> (r: Vec<(String, String)>)
    ensures
        pair_texts(r@) == template_values(*req, *config),
{
    let mut values: Vec<(String, String)> = Vec::new();
    values.push((owned("width"), u32_text(req.width)));
    values.push((owned("height"), u32_text(req.height)));
    values.push((owned("fps"), u32_text(req.fps)));
    values.push((owned("bitrate_kbps"), u32_text(req.bitrate)));
    values.push((owned("vbv_buffer_kbits"), u32_text(req.vbv_buffer)));
    values.push((owned("payload_mtu"), u32_text(req.payload_mtu)));
    values.push((owned("pipewire_node"), owned(req.pipewire_node)));
    let ghost fixed = pair_texts(values@);
    let mut i: usize = 0;
    while i < config.defaults.len()
        invariant
            i <= config.defaults@.len(),
            pair_texts(values@) == fixed + pair_texts(config.defaults@).take(i as int),
        decreases config.defaults@.len() - i,
    {
        let ghost before = pair_texts(values@);
        let d = &config.defaults[i];
        values.push((d.0.clone(), d.1.clone()));
        assert(pair_texts(values@) =~= before.push((d.0@, d.1@)));
        assert(pair_texts(config.defaults@).take(i + 1) =~= pair_texts(config.defaults@).take(
            i as int,
        ).push((d.0@, d.1@)));
        i = i + 1;
    }
    assert(pair_texts(config.defaults@).take(i as int) =~= pair_texts(config.defaults@));
    assert(pair_texts(values@) =~= template_values(*req, *config));
    values
}

/// Builds the streaming pipeline for a request: the chosen encoder's name
/// and the pipeline text, each part rendered with `template_values`.
pub fn build_pipeline(
    req: &PipelineRequest,
    config: &PipelineConfig,
    present: &[String],
    hardware: &HardwareProbe,
) -> (r: Result<(String, String), PipelineError>)
    ensures
        match choice_spec(config.encoders@, req.codec@, opt_text(req.encoder), texts(present@), *hardware) {
            ChoiceOutcome::Chosen(j) => {
                let enc = codec_list(*config, req.codec@).unwrap()[j];
                let values = template_values(*req, *config);
                match (
                    text_lookup(pair_texts(config.video_sources@), req.source@),
                    text_lookup(pair_texts(config.payloader@), req.codec@),
                ) {
                    (Some(src), Some(pay)) => r matches Ok((name, pipeline)) && name@ == enc.name@
                        && pipeline@ == pipeline_text(
                        render_spec(src, values),
                        render_spec(enc.pipeline@, values),
                        render_spec(pay, values),
                        req.host@,
                        req.port as nat,
                    ),
                    (None, _) => r matches Err(PipelineError::UnknownSource { source })
                        && source@ == req.source@,
                    (Some(_), None) => r matches Err(PipelineError::MissingPayloader { codec })
                        && codec@ == req.codec@,
                }
            },
            outcome => r matches Err(PipelineError::Encoder(e)) && error_fits(
                e,
                outcome,
                codec_list(*config, req.codec@),
                req.codec@,
                opt_text(req.encoder),
                texts(present@),
                *hardware,
            ),
        },
{
    let enc = match choose_encoder(config, req.codec, req.encoder, present, hardware) {
        Ok(e) => e,
        Err(e) => {
            return Err(PipelineError::Encoder(e));
        },
    };
    let values = request_values(req, config);
    let source_template = match get_text(&config.video_sources, req.source) {
        Some(t) => t,
        None => {
            return Err(PipelineError::UnknownSource { source: owned(req.source) });
        },
    };
    let payloader_template = match get_text(&config.payloader, req.codec) {
        Some(t) => t,
        None => {
            return Err(PipelineError::MissingPayloader { codec: owned(req.codec) });
        },
    };
    let source = render_template(source_template.as_str(), &values);
    let encode = render_template(enc.pipeline.as_str(), &values);
    let payloader = render_template(payloader_template.as_str(), &values);
    let mut pipeline = source;
    push_str(&mut pipeline, " ! queue max-size-buffers=2 leaky=downstream ! ");
    push_str(&mut pipeline, encode.as_str());
    push_str(&mut pipeline, " ! ");
    push_str(&mut pipeline, payloader.as_str());
    push_str(&mut pipeline, " ! queue max-size-buffers=2 leaky=downstream ! udpsink host=");
    push_str(&mut pipeline, req.host);
    push_str(&mut pipeline, " port=");
    let port = u32_text(req.port as u32);
    push_str(&mut pipeline, port.as_str());
    push_str(&mut pipeline, " sync=false async=false");
    Ok((enc.name.clone(), pipeline))
}

// ---------------------------------------------------------------------------
// Status of every encoder, and the choice for each codec
// ---------------------------------------------------------------------------

/// How one configured encoder stands here.
pub struct EncoderStatus {
    pub name: String,
    pub usable: bool,
    pub hardware: bool,
    pub recommended: bool,
    pub missing_elements: Vec<String>,
    pub missing_features: Vec<String>,
    pub warnings: Vec<String>,
}

/// The warnings for a usable software encoder, and for software AV1.
pub open spec fn warnings_spec(usable: bool, hardware: bool, codec: Seq<char>) -> Seq<Seq<char>> {
    (if usable && !hardware {
        seq!["software encoder; use only as an explicit fallback"@]
    } else {
        Seq::empty()
    }) + (if usable && codec == "av1"@ && !hardware {
        seq!["software AV1 is not selected by default for gaming streams"@]
    } else {
        Seq::empty()
    })
}

/// `st` reports `enc` for `codec` truthfully.
pub open spec fn status_fits(
    st: EncoderStatus,
    codec: Seq<char>,
    enc: EncoderEntry,
    present: Seq<Seq<char>>,
    hw: HardwareProbe,
) -> bool {
    let usable = usable_spec(codec, enc, present, hw);
    &&& st.name@ == enc.name@
    &&& texts(st.missing_elements@) == missing_elements_spec(enc, present)
    &&& texts(st.missing_features@) == missing_features_spec(codec, enc.name@, hw)
    &&& st.usable == usable
    &&& st.hardware == enc.hardware
    &&& st.recommended == (usable && enc.hardware)
    &&& texts(st.warnings@) == warnings_spec(usable, enc.hardware, codec)
}

/// The status of one encoder.
fn status_of(codec: &str, enc: &EncoderEntry, present: &[String], hardware: &HardwareProbe) -> (r:
    EncoderStatus)
    ensures
        status_fits(r, codec@, *enc, texts(present@), *hardware),
{
    let missing = missing_elements(enc, present);
    let features = encoder_missing_features(codec, enc, hardware);
    let usable = missing.len() == 0 && features.len() == 0;
    let mut warnings: Vec<String> = Vec::new();
    if usable && !enc.hardware {
        warnings.push(owned("software encoder; use only as an explicit fallback"));
    }
    if usable && str_eq(codec, "av1") && !enc.hardware {
        warnings.push(owned("software AV1 is not selected by default for gaming streams"));
    }
    assert(texts(warnings@) =~= warnings_spec(usable, enc.hardware, codec@));
    EncoderStatus {
        name: enc.name.clone(),
        usable,
        hardware: enc.hardware,
        recommended: usable && enc.hardware,
        missing_elements: missing,
        missing_features: features,
        warnings,
    }
}

/// The status of every configured encoder, codec by codec, in the
/// configuration's order.
pub fn encoder_status(config: &PipelineConfig, present: &[String], hardware: &HardwareProbe) -> (r:
    Vec<(String, Vec<EncoderStatus>)>)
    ensures
        r@.len() == config.encoders@.len(),
        forall|i: int|
            0 <= i < r@.len() ==> {
                let codec = config.encoders@[i].0@;
                let encs = config.encoders@[i].1@;
                &&& (#[trigger] r@[i]).0@ == codec
                &&& r@[i].1@.len() == encs.len()
                &&& forall|j: int|
                    0 <= j < encs.len() ==> status_fits(
                        #[trigger] r@[i].1@[j],
                        codec,
                        encs[j],
                        texts(present@),
                        *hardware,
                    )
            },
{
    let mut out: Vec<(String, Vec<EncoderStatus>)> = Vec::new();
    let mut i: usize = 0;
    while i < config.encoders.len()
        invariant
            i <= config.encoders@.len(),
            out@.len() == i,
            forall|k: int|
                0 <= k < i ==> {
                    let codec = config.encoders@[k].0@;
                    let encs = config.encoders@[k].1@;
                    &&& (#[trigger] out@[k]).0@ == codec
                    &&& out@[k].1@.len() == encs.len()
                    &&& forall|j: int|
                        0 <= j < encs.len() ==> status_fits(
                            #[trigger] out@[k].1@[j],
                            codec,
                            encs[j],
                            texts(present@),
                            *hardware,
                        )
                },
        decreases config.encoders@.len() - i,
    {
        let codec = &config.encoders[i].0;
        let encs = &config.encoders[i].1;
        let mut entries: Vec<EncoderStatus> = Vec::new();
        let mut j: usize = 0;
        while j < encs.len()
            invariant
                j <= encs@.len(),
                entries@.len() == j,
                forall|m: int|
                    0 <= m < j ==> status_fits(
                        #[trigger] entries@[m],
                        codec@,
                        encs@[m],
                        texts(present@),
                        *hardware,
                    ),
            decreases encs@.len() - j,
        {
            entries.push(status_of(codec.as_str(), &encs[j], present, hardware));
            j = j + 1;
        }
        out.push((codec.clone(), entries));
        i = i + 1;
    }
    out
}

/// The encoder chosen for a codec, if any.
pub struct EncoderSummary {
    pub codec: String,
    pub chosen: Option<String>,
}

/// The name of the encoder that `choice_spec` picks, if it picks one.
pub open spec fn chosen_name(
    config: PipelineConfig,
    codec: Seq<char>,
    present: Seq<Seq<char>>,
    hw: HardwareProbe,
) -> Option<Seq<char>> {
    match choice_spec(config.encoders@, codec, None, present, hw) {
        ChoiceOutcome::Chosen(j) => Some(codec_list(config, codec).unwrap()[j].name@),
        _ => None,
    }
}

/// The codecs that are summarised, in order.
pub open spec fn summary_codecs() -> Seq<Seq<char>> {
    seq!["h264"@, "hevc"@, "av1"@]
}

/// The default choice of encoder for H.264, HEVC and AV1, in that order.
pub fn chosen_encoder_summary(config: &PipelineConfig, present: &[String], hardware: &HardwareProbe) -> (r:
    Vec<EncoderSummary>)
    ensures
        r@.len() == 3,
        forall|k: int|
            0 <= k < 3 ==> {
                &&& (#[trigger] r@[k]).codec@ == summary_codecs()[k]
                &&& match chosen_name(*config, summary_codecs()[k], texts(present@), *hardware) {
                    Some(n) => r@[k].chosen matches Some(c) && c@ == n,
                    None => r@[k].chosen is None,
                }
            },
{
    let mut out: Vec<EncoderSummary> = Vec::new();
    let codecs = ["h264", "hevc", "av1"];
    let mut k: usize = 0;
    while k < 3
        invariant
            k <= 3,
            out@.len() == k,
            codecs@ == seq!["h264", "hevc", "av1"],
            forall|m: int|
                0 <= m < k ==> {
                    &&& (#[trigger] out@[m]).codec@ == summary_codecs()[m]
                    &&& match chosen_name(*config, summary_codecs()[m], texts(present@), *hardware) {
                        Some(n) => out@[m].chosen matches Some(c) && c@ == n,
                        None => out@[m].chosen is None,
                    }
                },
        decreases 3 - k,
    {
        let codec = codecs[k];
        assert(codec@ == summary_codecs()[k as int]);
        let chosen = match choose_encoder(config, codec, None, present, hardware) {
            Ok(e) => Some(e.name.clone()),
            Err(_) => None,
        };
        out.push(EncoderSummary { codec: owned(codec), chosen });
        k = k + 1;
    }
    out
}

// ---------------------------------------------------------------------------
// The hardware probe
// ---------------------------------------------------------------------------

/// The render node paths among the entries of `/dev/dri`, in the entries'
/// order: `/dev/dri/NAME` for each NAME that begins with `renderD`.
pub open spec fn render_node_paths(entries: Seq<Seq<char>>) -> Seq<Seq<char>>
    decreases entries.len(),
{
    if entries.len() == 0 {
        Seq::empty()
    } else {
        let rest = render_node_paths(entries.drop_last());
        if is_prefix("renderD"@, entries.last()) {
            rest.push("/dev/dri/"@ + entries.last())
        } else {
            rest
        }
    }
}

/// The DRM render nodes, sorted, from the names of the entries of
/// `/dev/dri`.
pub fn render_nodes_of(dri_entries: &[String]) -> (r: Vec<String>)
    ensures
        sorted_texts(texts(r@)),
        texts(r@).to_multiset() == render_node_paths(texts(dri_entries@)).to_multiset(),
{
    let ghost names = texts(dri_entries@);
    let mut nodes: Vec<String> = Vec::new();
    let mut i: usize = 0;
    while i < dri_entries.len()
        invariant
            i <= dri_entries@.len(),
            names == texts(dri_entries@),
            texts(nodes@) == render_node_paths(names.take(i as int)),
        decreases dri_entries@.len() - i,
    {
        let name = &dri_entries[i];
        assert(names.take(i + 1).drop_last() =~= names.take(i as int));
        if str_starts_with(name.as_str(), "renderD") {
            let ghost before = texts(nodes@);
            let mut path = owned("/dev/dri/");
            push_str(&mut path, name.as_str());
            nodes.push(path);
            assert(texts(nodes@) =~= before.push("/dev/dri/"@ + name@));
        }
        i = i + 1;
    }
    assert(names.take(i as int) =~= names);
    sort_texts(nodes)
}

/// Some line of `text` names an encode entry point and contains one of the
/// two marks.
pub open spec fn encode_line_with(text: Seq<char>, a: Seq<char>, b: Seq<char>) -> bool {
    exists|i: int|
        0 <= i < lines_spec(text).len() && contains_text(#[trigger] lines_spec(text)[i], "VAEntrypointEnc"@)
            && (contains_text(lines_spec(text)[i], a) || contains_text(lines_spec(text)[i], b))
}

/// The codecs that `vainfo` reports an encode entry point for, in order:
/// `av1`, `h264`, `hevc` (HEVC or H265).
pub open spec fn vaapi_codecs_spec(text: Seq<char>) -> Seq<Seq<char>> {
    (if encode_line_with(text, "AV1"@, "AV1"@) {
        seq!["av1"@]
    } else {
        Seq::empty()
    }) + (if encode_line_with(text, "H264"@, "H264"@) {
        seq!["h264"@]
    } else {
        Seq::empty()
    }) + (if encode_line_with(text, "HEVC"@, "H265"@) {
        seq!["hevc"@]
    } else {
        Seq::empty()
    })
}

/// Whether some line of `lines` names an encode entry point and contains
/// `a` or `b`.
fn any_encode_line(lines: &Vec<String>, a: &str, b: &str) -> (r: bool)
    ensures
        r == exists|i: int|
            0 <= i < texts(lines@).len() && contains_text(#[trigger] texts(lines@)[i], "VAEntrypointEnc"@)
                && (contains_text(texts(lines@)[i], a@) || contains_text(texts(lines@)[i], b@)),
{
    let ghost t = texts(lines@);
    let mut i: usize = 0;
    while i < lines.len()
        invariant
            i <= lines@.len(),
            t == texts(lines@),
            forall|k: int|
                0 <= k < i ==> !(contains_text(#[trigger] t[k], "VAEntrypointEnc"@) && (contains_text(
                    t[k],
                    a@,
                ) || contains_text(t[k], b@))),
        decreases lines@.len() - i,
    {
        let line = lines[i].as_str();
        assert(t[i as int] == line@);
        if str_contains(line, "VAEntrypointEnc") && (str_contains(line, a) || str_contains(line, b)) {
            return true;
        }
        i = i + 1;
    }
    false
}

/// The codecs VA-API can encode, from the output of `vainfo` on the first
/// render node (`None` when it could not be run or failed). Nothing without
/// a render node.
pub fn vaapi_encode_codecs(render_nodes: &[String], vainfo_output: Option<&str>) -> (r: Vec<String>)
    ensures
        texts(r@) == match vainfo_output {
            Some(text) => if render_nodes@.len() == 0 {
                Seq::empty()
            } else {
                vaapi_codecs_spec(text@)
            },
            None => Seq::empty(),
        },
{
    let mut codecs: Vec<String> = Vec::new();
    if render_nodes.len() == 0 {
        return codecs;
    }
    let text = match vainfo_output {
        Some(t) => t,
        None => {
            return codecs;
        },
    };
    let lines = split_lines(text);
    if any_encode_line(&lines, "AV1", "AV1") {
        codecs.push(owned("av1"));
    }
    if any_encode_line(&lines, "H264", "H264") {
        codecs.push(owned("h264"));
    }
    if any_encode_line(&lines, "HEVC", "H265") {
        codecs.push(owned("hevc"));
    }
    assert(texts(codecs@) =~= vaapi_codecs_spec(text@));
    codecs
}

/// The hardware probe, from the names of the entries of `/dev/dri`, the
/// output of `vainfo` on the first render node (`None` when it could not be
/// run or failed), and whether an NVIDIA device node exists.
pub fn hardware_probe(dri_entries: &[String], vainfo_output: Option<&str>, nvidia_present: bool) -> (r:
    HardwareProbe)
    ensures
        sorted_texts(texts(r.render_nodes@)),
        texts(r.render_nodes@).to_multiset() == render_node_paths(texts(dri_entries@)).to_multiset(),
        texts(r.vaapi_encode@) == match vainfo_output {
            Some(text) => if r.render_nodes@.len() == 0 {
                Seq::empty()
            } else {
                vaapi_codecs_spec(text@)
            },
            None => Seq::empty(),
        },
        r.nvidia_devices == nvidia_present,
{
    let render_nodes = render_nodes_of(dri_entries);
    let vaapi_encode = vaapi_encode_codecs(&render_nodes, vainfo_output);
    HardwareProbe { render_nodes, vaapi_encode, nvidia_devices: nvidia_present }
}

// ---------------------------------------------------------------------------
// Messages
// ---------------------------------------------------------------------------

/// What std's `Debug` prints for a string slice: the text in double quotes,
/// with quotes, backslashes, control and unprintable characters escaped.
pub uninterp spec fn debug_text(s: Seq<char>) -> Seq<char>;

/// A string slice as std's `Debug` prints it.
#[verifier::external_body]
fn debug_quoted(s: &str) -> (r: String)
    ensures
        r@ == debug_text(s@),
{
    format!("{:?}", s)
}

/// The message for an encoder name not configured for a codec, from the
/// name as `Debug` quotes it.
pub fn not_configured_message(quoted_name: &str, codec: &str) -> (r: String)
    ensures
        r@ == "encoder "@ + quoted_name@ + " is not configured for "@ + codec@,
{
    let mut out = owned("encoder ");
    push_str(&mut out, quoted_name);
    push_str(&mut out, " is not configured for ");
    push_str(&mut out, codec);
    out
}

/// The message for an unknown video source, from the source as `Debug`
/// quotes it.
pub fn unknown_source_message(quoted_source: &str) -> (r: String)
    ensures
        r@ == "unknown source "@ + quoted_source@,
{
    let mut out = owned("unknown source ");
    push_str(&mut out, quoted_source);
    out
}

/// `NAME missing A,B` for one considered encoder.
pub open spec fn detail_line(d: (Seq<char>, Seq<Seq<char>>)) -> Seq<char> {
    d.0 + " missing "@ + join_spec(d.1, ","@)
}

/// The line of each considered encoder.
pub open spec fn detail_lines(details: Seq<(Seq<char>, Seq<Seq<char>>)>) -> Seq<Seq<char>> {
    details.map_values(|d: (Seq<char>, Seq<Seq<char>>)| detail_line(d))
}

/// The lines of the considered encoders, separated by `, `.
pub open spec fn details_text(details: Seq<(Seq<char>, Seq<Seq<char>>)>) -> Seq<char> {
    join_spec(detail_lines(details), ", "@)
}

/// The message of an encoder error.
pub open spec fn encoder_error_text(e: EncoderError) -> Seq<char> {
    match e {
        EncoderError::UnsupportedCodec { codec } => "unsupported codec: "@ + codec@,
        EncoderError::NotConfigured { name, codec } => "encoder "@ + debug_text(name@)
            + " is not configured for "@ + codec@,
        EncoderError::NoHardwareAv1 => "no usable hardware AV1 encoder found; request a software encoder explicitly if this is only a diagnostic pipeline"@,
        EncoderError::NoUsable { codec, details } => "no usable "@ + codec@ + " encoder found: "@
            + details_text(details_view(details@)),
    }
}

impl EncoderError {
    /// The message that explains the error, as `encoder_error_text` states it.
    pub fn message(&self) -> (r: String)
        ensures
            r@ == encoder_error_text(*self),
    {
        match self {
            EncoderError::UnsupportedCodec { codec } => {
                let mut out = owned("unsupported codec: ");
                push_str(&mut out, codec.as_str());
                out
            },
            EncoderError::NotConfigured { name, codec } => {
                let quoted = debug_quoted(name.as_str());
                not_configured_message(quoted.as_str(), codec.as_str())
            },
            EncoderError::NoHardwareAv1 => owned(
                "no usable hardware AV1 encoder found; request a software encoder explicitly if this is only a diagnostic pipeline",
            ),
            EncoderError::NoUsable { codec, details } => {
                let ghost dv = details_view(details@);
                let mut pieces: Vec<String> = Vec::new();
                let mut i: usize = 0;
                while i < details.len()
                    invariant
                        i <= details@.len(),
                        dv == details_view(details@),
                        texts(pieces@) == detail_lines(dv.take(i as int)),
                    decreases details@.len() - i,
                {
                    let ghost before = texts(pieces@);
                    let mut piece = details[i].0.clone();
                    push_str(&mut piece, " missing ");
                    let lacks = join_with(&details[i].1, ",");
                    push_str(&mut piece, lacks.as_str());
                    pieces.push(piece);
                    assert(piece@ == detail_line(dv[i as int]));
                    assert(texts(pieces@) =~= before.push(piece@));
                    assert(dv.take(i + 1) =~= dv.take(i as int).push(dv[i as int]));
                    assert(detail_lines(dv.take(i + 1)) =~= detail_lines(dv.take(i as int)).push(
                        detail_line(dv[i as int]),
                    ));
                    i = i + 1;
                }
                assert(dv.take(i as int) =~= dv);
                let mut out = owned("no usable ");
                push_str(&mut out, codec.as_str());
                push_str(&mut out, " encoder found: ");
                let joined = join_with(&pieces, ", ");
                push_str(&mut out, joined.as_str());
                out
            },
        }
    }
}

impl PipelineError {
    /// The message that explains the error.
    pub fn message(&self) -> (r: String)
        ensures
            r@ == match *self {
                PipelineError::Encoder(e) => encoder_error_text(e),
                PipelineError::UnknownSource { source } => "unknown source "@ + debug_text(source@),
                PipelineError::MissingPayloader { codec } => "missing payloader for "@ + codec@,
            },
    {
        match self {
            PipelineError::Encoder(e) => e.message(),
            PipelineError::UnknownSource { source } => {
                let quoted = debug_quoted(source.as_str());
                unknown_source_message(quoted.as_str())
            },
            PipelineError::MissingPayloader { codec } => {
                let mut out = owned("missing payloader for ");
                push_str(&mut out, codec.as_str());
                out
            },
        }
    }
}

// ---------------------------------------------------------------------------
// Laws of the choice
// ---------------------------------------------------------------------------

/// What `first_candidate` finds is a candidate, and nothing before it is.
proof fn lemma_first_candidate_found(
    encs: Seq<EncoderEntry>,
    lo: int,
    codec: Seq<char>,
    requested: Option<Seq<char>>,
    present: Seq<Seq<char>>,
    hw: HardwareProbe,
    need_hw: bool,
)
    requires
        0 <= lo <= encs.len(),
    ensures
        lo <= first_candidate(encs, lo, codec, requested, present, hw, need_hw) <= encs.len(),
        first_candidate(encs, lo, codec, requested, present, hw, need_hw) < encs.len() ==> candidate(
            encs[first_candidate(encs, lo, codec, requested, present, hw, need_hw)],
            codec,
            requested,
            present,
            hw,
            need_hw,
        ),
        forall|j: int|
            lo <= j < first_candidate(encs, lo, codec, requested, present, hw, need_hw) ==> !candidate(
                #[trigger] encs[j],
                codec,
                requested,
                present,
                hw,
                need_hw,
            ),
    decreases encs.len() - lo,
{
    if lo < encs.len() && !candidate(encs[lo], codec, requested, present, hw, need_hw) {
        lemma_first_candidate_found(encs, lo + 1, codec, requested, present, hw, need_hw);
    }
}

/// A chosen encoder is one of the codec's encoders, has the requested name
/// if one was requested, and is usable: all its elements are installed and
/// no hardware feature it needs is lacking.
pub proof fn law_chosen_encoder_is_usable(
    config: PipelineConfig,
    codec: Seq<char>,
    requested: Option<Seq<char>>,
    present: Seq<Seq<char>>,
    hw: HardwareProbe,
    j: int,
)
    requires
        choice_spec(config.encoders@, codec, requested, present, hw) == ChoiceOutcome::Chosen(j),
    ensures
        codec_list(config, codec) is Some,
        0 <= j < codec_list(config, codec).unwrap().len(),
        in_pool(codec_list(config, codec).unwrap()[j], requested),
        usable_spec(codec, codec_list(config, codec).unwrap()[j], present, hw),
{
    let encs = codec_list(config, codec).unwrap();
    lemma_first_candidate_found(encs, 0, codec, requested, present, hw, true);
    lemma_first_candidate_found(encs, 0, codec, requested, present, hw, false);
}

/// Without a requested name, a usable hardware encoder is always chosen
/// over software ones: if any hardware encoder of the codec is usable, the
/// chosen encoder runs on the hardware, and it is the first such.
pub proof fn law_default_prefers_hardware(
    config: PipelineConfig,
    codec: Seq<char>,
    present: Seq<Seq<char>>,
    hw: HardwareProbe,
    k: int,
)
    requires
        codec_list(config, codec) is Some,
        0 <= k < codec_list(config, codec).unwrap().len(),
        codec_list(config, codec).unwrap()[k].hardware,
        usable_spec(codec, codec_list(config, codec).unwrap()[k], present, hw),
    ensures
        choice_spec(config.encoders@, codec, None, present, hw) matches ChoiceOutcome::Chosen(j) && j
            <= k && codec_list(config, codec).unwrap()[j].hardware,
{
    let encs = codec_list(config, codec).unwrap();
    lemma_first_candidate_found(encs, 0, codec, None, present, hw, true);
    assert(candidate(encs[k], codec, None, present, hw, true));
}

/// Without a requested name, AV1 is never encoded in software: the choice
/// is a hardware encoder or the refusal `NoHardwareAv1`.
pub proof fn law_av1_default_is_hardware(
    config: PipelineConfig,
    present: Seq<Seq<char>>,
    hw: HardwareProbe,
)
    ensures
        match choice_spec(config.encoders@, "av1"@, None, present, hw) {
            ChoiceOutcome::Chosen(j) => codec_list(config, "av1"@).unwrap()[j].hardware,
            ChoiceOutcome::NoUsable => false,
            _ => true,
        },
{
    match codec_list(config, "av1"@) {
        Some(encs) => {
            lemma_first_candidate_found(encs, 0, "av1"@, None, present, hw, true);
        },
        None => {},
    }
}

proof fn lemma_render_paths_prefixed(entries: Seq<Seq<char>>)
    ensures
        forall|i: int|
            0 <= i < render_node_paths(entries).len() ==> is_prefix(
                "/dev/dri/renderD"@,
                #[trigger] render_node_paths(entries)[i],
            ),
    decreases entries.len(),
{
    reveal_strlit("/dev/dri/renderD");
    reveal_strlit("/dev/dri/");
    reveal_strlit("renderD");
    if entries.len() > 0 {
        lemma_render_paths_prefixed(entries.drop_last());
        let rest = render_node_paths(entries.drop_last());
        let e = entries.last();
        if is_prefix("renderD"@, e) {
            let p = "/dev/dri/"@ + e;
            assert(p.take(16) =~= "/dev/dri/renderD"@) by {
                assert forall|k: int| 0 <= k < 16 implies p.take(16)[k] == "/dev/dri/renderD"@[k] by {
                    if k >= 9 {
                        assert(p[k] == e[k - 9]);
                        assert(e.take(7)[k - 9] == e[k - 9]);
                    }
                }
            }
            assert forall|i: int| 0 <= i < rest.push(p).len() implies is_prefix(
                "/dev/dri/renderD"@,
                #[trigger] rest.push(p)[i],
            ) by {
                if i < rest.len() {
                    assert(rest.push(p)[i] == rest[i]);
                }
            }
        }
    }
}

/// Each template key is bound to its own request field: `{width}`,
/// `{height}`, `{fps}`, `{bitrate_kbps}`, `{vbv_buffer_kbits}` and
/// `{payload_mtu}` to the decimal text of the request's width, height,
/// refresh rate, bitrate, VBV buffer and payload size, and
/// `{pipewire_node}` to its PipeWire node, whatever the configured defaults.
pub proof fn law_template_values_bound(req: PipelineRequest, config: PipelineConfig)
    ensures
        text_lookup(template_values(req, config), "width"@) == Some(nat_text(req.width as nat)),
        text_lookup(template_values(req, config), "height"@) == Some(nat_text(req.height as nat)),
        text_lookup(template_values(req, config), "fps"@) == Some(nat_text(req.fps as nat)),
        text_lookup(template_values(req, config), "bitrate_kbps"@) == Some(nat_text(req.bitrate as nat)),
        text_lookup(template_values(req, config), "vbv_buffer_kbits"@) == Some(
            nat_text(req.vbv_buffer as nat),
        ),
        text_lookup(template_values(req, config), "payload_mtu"@) == Some(
            nat_text(req.payload_mtu as nat),
        ),
        text_lookup(template_values(req, config), "pipewire_node"@) == Some(req.pipewire_node@),
{
    reveal_strlit("width");
    reveal_strlit("height");
    reveal_strlit("fps");
    reveal_strlit("bitrate_kbps");
    reveal_strlit("vbv_buffer_kbits");
    reveal_strlit("payload_mtu");
    reveal_strlit("pipewire_node");
    let e = template_values(req, config);
    assert(e[0].0 == "width"@ && e[1].0 == "height"@ && e[2].0 == "fps"@ && e[3].0
        == "bitrate_kbps"@ && e[4].0 == "vbv_buffer_kbits"@ && e[5].0 == "payload_mtu"@ && e[6].0
        == "pipewire_node"@);
    assert(e[0].1 == nat_text(req.width as nat) && e[1].1 == nat_text(req.height as nat) && e[2].1
        == nat_text(req.fps as nat) && e[3].1 == nat_text(req.bitrate as nat) && e[4].1 == nat_text(
        req.vbv_buffer as nat,
    ) && e[5].1 == nat_text(req.payload_mtu as nat) && e[6].1 == req.pipewire_node@);
    lemma_text_key_index(e, "width"@, 0);
    lemma_text_key_index(e, "height"@, 1);
    lemma_text_key_index(e, "fps"@, 2);
    lemma_text_key_index(e, "bitrate_kbps"@, 3);
    lemma_text_key_index(e, "vbv_buffer_kbits"@, 4);
    lemma_text_key_index(e, "payload_mtu"@, 5);
    lemma_text_key_index(e, "pipewire_node"@, 6);
}

/// A `vainfo` line that names an encode entry point reports its codec:
/// `AV1` gives `av1`, `H264` gives `h264`, and `HEVC` or `H265` gives
/// `hevc`; and a codec is reported only when such a line names it.
pub proof fn law_vaapi_encode_lines(text: Seq<char>, i: int)
    requires
        0 <= i < lines_spec(text).len(),
        contains_text(lines_spec(text)[i], "VAEntrypointEnc"@),
    ensures
        contains_text(lines_spec(text)[i], "AV1"@) ==> vaapi_codecs_spec(text).contains("av1"@),
        contains_text(lines_spec(text)[i], "H264"@) ==> vaapi_codecs_spec(text).contains("h264"@),
        contains_text(lines_spec(text)[i], "HEVC"@) ==> vaapi_codecs_spec(text).contains("hevc"@),
        contains_text(lines_spec(text)[i], "H265"@) ==> vaapi_codecs_spec(text).contains("hevc"@),
{
    let c = vaapi_codecs_spec(text);
    if contains_text(lines_spec(text)[i], "AV1"@) {
        assert(encode_line_with(text, "AV1"@, "AV1"@));
        assert(c[0] == "av1"@);
    }
    if contains_text(lines_spec(text)[i], "H264"@) {
        assert(encode_line_with(text, "H264"@, "H264"@));
        if encode_line_with(text, "AV1"@, "AV1"@) {
            assert(c[1] == "h264"@);
        } else {
            assert(c[0] == "h264"@);
        }
    }
    if contains_text(lines_spec(text)[i], "HEVC"@) || contains_text(lines_spec(text)[i], "H265"@) {
        assert(encode_line_with(text, "HEVC"@, "H265"@));
        assert(c[c.len() - 1] == "hevc"@);
    }
}

/// A codec is reported only when some line names an encode entry point and
/// the codec's mark.
pub proof fn law_vaapi_reports_only_named(text: Seq<char>)
    ensures
        vaapi_codecs_spec(text).contains("hevc"@) ==> exists|i: int|
            0 <= i < lines_spec(text).len() && contains_text(
                #[trigger] lines_spec(text)[i],
                "VAEntrypointEnc"@,
            ) && (contains_text(lines_spec(text)[i], "HEVC"@) || contains_text(
                lines_spec(text)[i],
                "H265"@,
            )),
        vaapi_codecs_spec(text).contains("h264"@) ==> exists|i: int|
            0 <= i < lines_spec(text).len() && contains_text(
                #[trigger] lines_spec(text)[i],
                "VAEntrypointEnc"@,
            ) && contains_text(lines_spec(text)[i], "H264"@),
        vaapi_codecs_spec(text).contains("av1"@) ==> exists|i: int|
            0 <= i < lines_spec(text).len() && contains_text(
                #[trigger] lines_spec(text)[i],
                "VAEntrypointEnc"@,
            ) && contains_text(lines_spec(text)[i], "AV1"@),
{
    reveal_strlit("av1");
    reveal_strlit("h264");
    reveal_strlit("hevc");
    let c = vaapi_codecs_spec(text);
    assert("av1"@ != "h264"@ && "av1"@ != "hevc"@ && "h264"@ != "hevc"@) by {
        assert("av1"@.len() != "h264"@.len());
        assert("av1"@.len() != "hevc"@.len());
        assert("h264"@[1] != "hevc"@[1]);
    }
    if c.contains("hevc"@) {
        let k = choose|k: int| 0 <= k < c.len() && c[k] == "hevc"@;
        assert(encode_line_with(text, "HEVC"@, "H265"@));
    }
    if c.contains("h264"@) {
        let k = choose|k: int| 0 <= k < c.len() && c[k] == "h264"@;
        assert(encode_line_with(text, "H264"@, "H264"@));
    }
    if c.contains("av1"@) {
        let k = choose|k: int| 0 <= k < c.len() && c[k] == "av1"@;
        assert(encode_line_with(text, "AV1"@, "AV1"@));
    }
}

/// The place of a VA-API codec in the order `av1`, `h264`, `hevc`.
pub open spec fn codec_rank(c: Seq<char>) -> int {
    if c == "av1"@ {
        0
    } else if c == "h264"@ {
        1
    } else {
        2
    }
}

/// The probe's shape: every render node path starts with
/// `/dev/dri/renderD`, and the VA-API codecs are among `av1`, `h264` and
/// `hevc`, in that order, none twice.
pub proof fn law_hardware_probe_shape(entries: Seq<Seq<char>>, vainfo: Seq<char>)
    ensures
        forall|i: int|
            0 <= i < render_node_paths(entries).len() ==> is_prefix(
                "/dev/dri/renderD"@,
                #[trigger] render_node_paths(entries)[i],
            ),
        vaapi_codecs_spec(vainfo).len() <= 3,
        forall|i: int|
            0 <= i < vaapi_codecs_spec(vainfo).len() ==> {
                let c = #[trigger] vaapi_codecs_spec(vainfo)[i];
                c == "av1"@ || c == "h264"@ || c == "hevc"@
            },
        forall|i: int, j: int|
            0 <= i < j < vaapi_codecs_spec(vainfo).len() ==> codec_rank(
                #[trigger] vaapi_codecs_spec(vainfo)[i],
            ) < codec_rank(#[trigger] vaapi_codecs_spec(vainfo)[j]),
{
    lemma_render_paths_prefixed(entries);
    reveal_strlit("av1");
    reveal_strlit("h264");
    reveal_strlit("hevc");
    assert("av1"@ != "h264"@ && "av1"@ != "hevc"@ && "h264"@ != "hevc"@) by {
        assert("av1"@.len() != "h264"@.len());
        assert("av1"@.len() != "hevc"@.len());
        assert("h264"@[1] != "hevc"@[1]);
    }
}

/// An encoder is recommended exactly when it is usable and runs on the
/// hardware; only usable software encoders carry warnings.
pub proof fn law_status_recommendation(
    st: EncoderStatus,
    codec: Seq<char>,
    enc: EncoderEntry,
    present: Seq<Seq<char>>,
    hw: HardwareProbe,
)
    requires
        status_fits(st, codec, enc, present, hw),
    ensures
        st.recommended <==> (st.usable && st.hardware),
        st.warnings@.len() > 0 <==> (st.usable && !st.hardware),
{
    assert(texts(st.warnings@).len() == st.warnings@.len());
}

/// A template without an opening brace renders as itself.
pub proof fn law_render_plain_text(t: Seq<char>, values: Seq<(Seq<char>, Seq<char>)>)
    requires
        forall|i: int| 0 <= i < t.len() ==> t[i] != '{',
    ensures
        render_spec(t, values) == t,
    decreases t.len(),
{
    if t.len() > 0 {
        law_render_plain_text(t.drop_first(), values);
        assert(t =~= seq![t[0]] + t.drop_first());
    }
}

} // verus!
