//! Stream geometry, display scale and audio channel settings, sanitized from
//! the text the runtime is given (environment values, client requests).
//!
//! Scales and refresh rates are positive decimal quantities read as
//! `crate::decimal` describes.
use vstd::prelude::*;
use crate::decimal::{
    at_least, at_most, divide_extent, divided_extent, larger, magnitude_at_least,
    magnitude_at_most, magnitude_less, magnitude_text, magnitude_to_text, multiplied_rounded,
    multiply_rounded, positive_reading, read_positive, Decimal, Magnitude,
};
use crate::round_trip::{
    lemma_decimal_text_reads_back, lemma_positive_reading_wf, lemma_read_back_value,
    lemma_small_magnitude,
};
use crate::paths::{DEFAULT_FPS, DEFAULT_HEIGHT, DEFAULT_SCALE, DEFAULT_WIDTH};
use crate::text::{
    lemma_trim_unchanged, owned, parse_i64, parse_i64_spec, parse_u32, parse_u32_spec, push_str,
    str_eq, trim, trim_spec,
};

verus! {

// ---------------------------------------------------------------------------
// Integers and channel counts
// ---------------------------------------------------------------------------

/// An integer in `1..=maximum` read from `value`, or `fallback`.
pub open spec fn positive_int_spec(value: Seq<char>, fallback: u32, maximum: u32) -> u32 {
    match parse_i64_spec(value) {
        Some(v) => if 1 <= v && v <= maximum {
            v as u32
        } else {
            fallback
        },
        None => fallback,
    }
}

/// Reads an integer in `1..=maximum`, falling back when the text is not a
/// 64-bit integer or is out of range.
pub fn sanitize_positive_int(value: &str, fallback: u32, maximum: u32) -> (r: u32)
    ensures
        r == positive_int_spec(value@, fallback, maximum),
{
    match parse_i64(value) {
        Some(v) => {
            if v >= 1 && (v as u64) <= maximum as u64 {
                v as u32
            } else {
                fallback
            }
        },
        None => fallback,
    }
}

/// A supported channel count (2, 6 or 8) read from `value`, or `fallback`.
pub open spec fn audio_channels_spec(value: Seq<char>, fallback: u32) -> u32 {
    match parse_u32_spec(value) {
        Some(c) => if c == 2 || c == 6 || c == 8 {
            c
        } else {
            fallback
        },
        None => fallback,
    }
}

/// Reads a supported channel count (2, 6 or 8), falling back otherwise.
pub fn sanitize_audio_channels(value: &str, fallback: u32) -> (r: u32)
    ensures
        r == audio_channels_spec(value@, fallback),
{
    match parse_u32(value) {
        Some(c) => {
            if c == 2 || c == 6 || c == 8 {
                c
            } else {
                fallback
            }
        },
        None => fallback,
    }
}

/// A channel count from a client's speaker configuration (`2.0`, `5.1`,
/// `7.1`) or from a plain count, after trimming.
pub open spec fn channels_from_configuration_spec(value: Seq<char>, fallback: u32) -> u32 {
    let t = trim_spec(value);
    if t == "2.0"@ {
        2
    } else if t == "5.1"@ {
        6
    } else if t == "7.1"@ {
        8
    } else {
        audio_channels_spec(t, fallback)
    }
}

/// Reads a channel count from a speaker configuration name or a count.
pub fn audio_channels_from_configuration(value: &str, fallback: u32) -> (r: u32)
    ensures
        r == channels_from_configuration_spec(value@, fallback),
{
    let t = trim(value);
    if str_eq(t.as_str(), "2.0") {
        2
    } else if str_eq(t.as_str(), "5.1") {
        6
    } else if str_eq(t.as_str(), "7.1") {
        8
    } else {
        sanitize_audio_channels(t.as_str(), fallback)
    }
}

/// The settings the runtime reads from its environment; `None` for a
/// variable that is unset.
pub struct DisplayEnv {
    pub width: Option<String>,
    pub height: Option<String>,
    pub fps: Option<String>,
    pub scale: Option<String>,
    pub client_width: Option<String>,
    pub client_height: Option<String>,
    pub client_fps: Option<String>,
    pub client_scale: Option<String>,
    pub audio_channels: Option<String>,
    pub client_audio_configuration: Option<String>,
}

/// The text of an environment value, or `default` when unset.
pub open spec fn env_or(value: Option<String>, default: Seq<char>) -> Seq<char> {
    match value {
        Some(v) => v@,
        None => default,
    }
}

fn env_text<'a>(value: &'a Option<String>, default: &'a str) -> (r: &'a str)
    ensures
        r@ == env_or(*value, default@),
{
    match value {
        Some(v) => v.as_str(),
        None => default,
    }
}

/// The default channel count: `SUNSHINE_AUDIO_CHANNELS` if supported, else 2.
pub open spec fn default_audio_channels_spec(env: DisplayEnv) -> u32 {
    audio_channels_spec(env_or(env.audio_channels, "2"@), 2)
}

/// The default channel count.
pub fn default_audio_channels(env: &DisplayEnv) -> (r: u32)
    ensures
        r == default_audio_channels_spec(*env),
{
    sanitize_audio_channels(env_text(&env.audio_channels, "2"), 2)
}

/// The channel count a connecting client asked for, falling back to the
/// default count.
pub fn requested_audio_channels(env: &DisplayEnv) -> (r: u32)
    ensures
        r == channels_from_configuration_spec(
            env_or(env.client_audio_configuration, ""@),
            default_audio_channels_spec(*env),
        ),
{
    let fallback = default_audio_channels(env);
    audio_channels_from_configuration(env_text(&env.client_audio_configuration, ""), fallback)
}

// ---------------------------------------------------------------------------
// Refresh rates and scales
// ---------------------------------------------------------------------------

/// A refresh rate in `(0, 240]`, displayed as a number, or `fallback`.
pub open spec fn refresh_rate_spec(value: Seq<char>, fallback: Seq<char>) -> Seq<char> {
    match positive_reading(value) {
        Some(m) => if at_most(m, 240, 1) {
            magnitude_text(m)
        } else {
            fallback
        },
        None => fallback,
    }
}

/// Reads a refresh rate in `(0, 240]` and displays it canonically (`60.0`
/// becomes `60`), falling back otherwise.
pub fn sanitize_refresh_rate(value: &str, fallback: &str) -> (r: String)
    ensures
        r@ == refresh_rate_spec(value@, fallback@),
{
    match read_positive(value) {
        Some(m) => {
            if magnitude_at_most(m, 240, 1) {
                magnitude_to_text(m)
            } else {
                owned(fallback)
            }
        },
        None => owned(fallback),
    }
}

/// Sanitizing a sanitized refresh rate changes nothing: the displayed rate
/// reads back as the same rate, and a fallback that is itself a sanitized
/// rate stays as it is.
pub proof fn law_refresh_rate_idempotent(value: Seq<char>, fallback: Seq<char>)
    requires
        refresh_rate_spec(fallback, fallback) == fallback,
    ensures
        refresh_rate_spec(refresh_rate_spec(value, fallback), fallback) == refresh_rate_spec(
            value,
            fallback,
        ),
{
    lemma_positive_reading_wf(value);
    if let Some(Magnitude::Finite(d)) = positive_reading(value) {
        if at_most(Magnitude::Finite(d), 240, 1) {
            crate::decimal::lemma_pow10_17();
            lemma_small_magnitude(d, 240);
            lemma_decimal_text_reads_back(d);
            lemma_read_back_value(d, 240, 1);
        }
    }
}

/// `auto`, or a scale in `[0.5, 4]` displayed as a number, or `fallback`.
pub open spec fn scale_request_spec(value: Seq<char>, fallback: Seq<char>) -> Seq<char> {
    let t = trim_spec(value);
    if t == "auto"@ {
        "auto"@
    } else {
        match positive_reading(t) {
            Some(m) => if at_least(m, 1, 2) && at_most(m, 4, 1) {
                magnitude_text(m)
            } else {
                fallback
            },
            None => fallback,
        }
    }
}

/// Reads a scale request: `auto`, or a scale in `[0.5, 4]`.
pub fn sanitize_scale_request(value: &str, fallback: &str) -> (r: String)
    ensures
        r@ == scale_request_spec(value@, fallback@),
{
    let t = trim(value);
    if str_eq(t.as_str(), "auto") {
        return owned("auto");
    }
    match read_positive(t.as_str()) {
        Some(m) => {
            if magnitude_at_least(m, 1, 2) && magnitude_at_most(m, 4, 1) {
                magnitude_to_text(m)
            } else {
                owned(fallback)
            }
        },
        None => owned(fallback),
    }
}

/// Sanitizing a sanitized scale request changes nothing: `auto` stays
/// `auto`, a displayed scale reads back as the same scale, and a fallback that
/// is itself a sanitized request stays as it is.
pub proof fn law_scale_request_idempotent(value: Seq<char>, fallback: Seq<char>)
    requires
        scale_request_spec(fallback, fallback) == fallback,
    ensures
        scale_request_spec(scale_request_spec(value, fallback), fallback) == scale_request_spec(
            value,
            fallback,
        ),
{
    reveal_strlit("auto");
    lemma_trim_unchanged("auto"@);
    let t = trim_spec(value);
    lemma_positive_reading_wf(t);
    if t != "auto"@ {
        if let Some(Magnitude::Finite(d)) = positive_reading(t) {
            if at_least(Magnitude::Finite(d), 1, 2) && at_most(Magnitude::Finite(d), 4, 1) {
                crate::decimal::lemma_pow10_17();
                lemma_small_magnitude(d, 4);
                lemma_decimal_text_reads_back(d);
                lemma_read_back_value(d, 4, 1);
                lemma_read_back_value(d, 1, 2);
                let text = magnitude_text(Magnitude::Finite(d));
                lemma_trim_unchanged(text);
                assert(text[0] != "auto"@[0]);
            }
        }
    }
}

/// A text that reads as a scale in `[0.5, 4]`.
pub open spec fn is_scale_text(t: Seq<char>) -> bool {
    positive_reading(t) matches Some(m) && at_least(m, 1, 2) && at_most(m, 4, 1)
}

/// A sanitized scale request: `auto`, or the display of a scale in
/// `[0.5, 4]`.
pub open spec fn is_canonical_scale(t: Seq<char>) -> bool {
    t == "auto"@ || exists|d: Decimal|
        #![trigger magnitude_text(Magnitude::Finite(d))]
        d.wf() && at_least(Magnitude::Finite(d), 1, 2) && at_most(Magnitude::Finite(d), 4, 1)
            && t == magnitude_text(Magnitude::Finite(d))
}

/// The display of a scale in range reads back as a scale in range and
/// sanitizes to itself.
proof fn lemma_scale_display(d: Decimal, fallback: Seq<char>)
    requires
        d.wf(),
        at_least(Magnitude::Finite(d), 1, 2),
        at_most(Magnitude::Finite(d), 4, 1),
    ensures
        is_scale_text(magnitude_text(Magnitude::Finite(d))),
        scale_request_spec(magnitude_text(Magnitude::Finite(d)), fallback) == magnitude_text(
            Magnitude::Finite(d),
        ),
{
    reveal_strlit("auto");
    crate::decimal::lemma_pow10_17();
    lemma_small_magnitude(d, 4);
    lemma_decimal_text_reads_back(d);
    lemma_read_back_value(d, 4, 1);
    lemma_read_back_value(d, 1, 2);
    let text = magnitude_text(Magnitude::Finite(d));
    lemma_trim_unchanged(text);
    assert(text[0] != "auto"@[0]);
}

/// A sanitized scale request is `auto` or reads as a scale in `[0.5, 4]`,
/// when the fallback is one of these.
pub proof fn law_scale_request_in_range(value: Seq<char>, fallback: Seq<char>)
    requires
        fallback == "auto"@ || is_scale_text(fallback),
    ensures
        scale_request_spec(value, fallback) == "auto"@ || is_scale_text(
            scale_request_spec(value, fallback),
        ),
{
    let t = trim_spec(value);
    lemma_positive_reading_wf(t);
    if t != "auto"@ {
        if let Some(Magnitude::Finite(d)) = positive_reading(t) {
            if at_least(Magnitude::Finite(d), 1, 2) && at_most(Magnitude::Finite(d), 4, 1) {
                lemma_scale_display(d, fallback);
            }
        }
    }
}

/// Sanitizing a scale request twice gives what sanitizing it once gives,
/// when the fallback is `auto` or the display of a scale in `[0.5, 4]`.
pub proof fn law_scale_request_idempotent_for_sanitized_fallback(value: Seq<char>, fallback: Seq<char>)
    requires
        is_canonical_scale(fallback),
    ensures
        scale_request_spec(scale_request_spec(value, fallback), fallback) == scale_request_spec(
            value,
            fallback,
        ),
        scale_request_spec(value, fallback) == "auto"@ || is_scale_text(
            scale_request_spec(value, fallback),
        ),
{
    reveal_strlit("auto");
    lemma_trim_unchanged("auto"@);
    if fallback != "auto"@ {
        let d = choose|d: Decimal|
            #![trigger magnitude_text(Magnitude::Finite(d))]
            d.wf() && at_least(Magnitude::Finite(d), 1, 2) && at_most(Magnitude::Finite(d), 4, 1)
                && fallback == magnitude_text(Magnitude::Finite(d));
        lemma_scale_display(d, fallback);
    }
    law_scale_request_idempotent(value, fallback);
    law_scale_request_in_range(value, fallback);
}

/// The scale tier of a resolution: 0 up to 1920x1199, 1 from 1921 wide or
/// 1200 high, 2 from 2560 or 1440, 3 from 2880 or 1800, 4 from 3840 or
/// 2160.
pub open spec fn scale_tier(width: u32, height: u32) -> nat {
    if width >= 3840 || height >= 2160 {
        4
    } else if width >= 2880 || height >= 1800 {
        3
    } else if width >= 2560 || height >= 1440 {
        2
    } else if width >= 1921 || height >= 1200 {
        1
    } else {
        0
    }
}

/// The scale of each tier, smallest first: 1, 1.25, 1.5, 1.75 and 2.
pub open spec fn tier_scale(tier: nat) -> Seq<char> {
    if tier == 0 {
        "1"@
    } else if tier == 1 {
        "1.25"@
    } else if tier == 2 {
        "1.5"@
    } else if tier == 3 {
        "1.75"@
    } else {
        "2"@
    }
}

/// Without a usable scale request, a session's scale is its resolution's
/// tier scale, and a resolution at least as wide and as high never gets a
/// smaller tier.
pub proof fn law_session_scale_grows_with_size(
    w1: u32,
    h1: u32,
    w2: u32,
    h2: u32,
    requested: Seq<char>,
)
    requires
        w1 <= w2,
        h1 <= h2,
        scale_request_spec(requested, "auto"@) == "auto"@,
    ensures
        session_scale_spec(w1, h1, requested) == tier_scale(scale_tier(w1, h1)),
        session_scale_spec(w2, h2, requested) == tier_scale(scale_tier(w2, h2)),
        scale_tier(w1, h1) <= scale_tier(w2, h2),
{
}

/// The positive quantity `value` denotes, or `fallback`.
pub open spec fn scale_value_spec(value: Seq<char>, fallback: Magnitude) -> Magnitude {
    match positive_reading(value) {
        Some(m) => m,
        None => fallback,
    }
}

/// Reads a positive scale, falling back otherwise.
pub fn scale_value(value: &str, fallback: Magnitude) -> (r: Magnitude)
    requires
        fallback.wf(),
    ensures
        r == scale_value_spec(value@, fallback),
        r.wf(),
{
    match read_positive(value) {
        Some(m) => m,
        None => fallback,
    }
}

/// Scale one.
pub open spec fn unit_scale() -> Magnitude {
    Magnitude::Finite(Decimal { mant: 1, exp: 0 })
}

pub fn one() -> (r: Magnitude)
    ensures
        r == unit_scale(),
        r.wf(),
{
    proof {
        crate::decimal::lemma_pow10_17();
    }
    Magnitude::Finite(Decimal { mant: 1, exp: 0 })
}

/// Displays a scale.
pub fn format_scale(value: Magnitude) -> (r: String)
    requires
        value.wf(),
    ensures
        r@ == magnitude_text(value),
{
    magnitude_to_text(value)
}

/// The scale a session uses: the request when it is a number in range,
/// otherwise a scale chosen from the resolution.
pub open spec fn session_scale_spec(width: u32, height: u32, requested: Seq<char>) -> Seq<
    char,
> {
    let req = scale_request_spec(requested, "auto"@);
    if req != "auto"@ {
        req
    } else if width >= 3840 || height >= 2160 {
        "2"@
    } else if width >= 2880 || height >= 1800 {
        "1.75"@
    } else if width >= 2560 || height >= 1440 {
        "1.5"@
    } else if width >= 1921 || height >= 1200 {
        "1.25"@
    } else {
        "1"@
    }
}

/// Resolves a session's scale from a request and the resolution.
pub fn resolve_session_scale(width: u32, height: u32, requested: &str) -> (r: String)
    ensures
        r@ == session_scale_spec(width, height, requested@),
{
    let req = sanitize_scale_request(requested, DEFAULT_SCALE);
    if !str_eq(req.as_str(), "auto") {
        return req;
    }
    if width >= 3840 || height >= 2160 {
        owned("2")
    } else if width >= 2880 || height >= 1800 {
        owned("1.75")
    } else if width >= 2560 || height >= 1440 {
        owned("1.5")
    } else if width >= 1921 || height >= 1200 {
        owned("1.25")
    } else {
        owned("1")
    }
}

/// The scale for a client's stream: the user's scale when set, else the
/// larger of the resolution's scale and the client's request.
pub open spec fn client_scale_spec(
    width: u32,
    height: u32,
    user_scale: Seq<char>,
    client_scale: Seq<char>,
) -> Seq<char> {
    let user = scale_request_spec(user_scale, "auto"@);
    let auto_scale = session_scale_spec(width, height, "auto"@);
    let client = scale_request_spec(client_scale, "auto"@);
    if user != "auto"@ {
        user
    } else if client == "auto"@ {
        auto_scale
    } else {
        magnitude_text(
            larger(
                scale_value_spec(auto_scale, unit_scale()),
                scale_value_spec(client, unit_scale()),
            ),
        )
    }
}

/// Resolves the scale for a client's stream.
pub fn resolve_client_scale(width: u32, height: u32, env: &DisplayEnv) -> (r: String)
    ensures
        r@ == client_scale_spec(
            width,
            height,
            env_or(env.scale, "auto"@),
            env_or(env.client_scale, "auto"@),
        ),
{
    let user_scale = sanitize_scale_request(env_text(&env.scale, DEFAULT_SCALE), DEFAULT_SCALE);
    if !str_eq(user_scale.as_str(), "auto") {
        return user_scale;
    }
    let auto_scale = resolve_session_scale(width, height, DEFAULT_SCALE);
    let client_scale = sanitize_scale_request(
        env_text(&env.client_scale, DEFAULT_SCALE),
        DEFAULT_SCALE,
    );
    if str_eq(client_scale.as_str(), "auto") {
        return auto_scale;
    }
    let a = scale_value(auto_scale.as_str(), one());
    let b = scale_value(client_scale.as_str(), one());
    let max = if magnitude_less(a, b) {
        b
    } else {
        a
    };
    format_scale(max)
}

// ---------------------------------------------------------------------------
// Geometry derived from a scale
// ---------------------------------------------------------------------------

/// The logical size KWin uses for a physical size at a scale: each side
/// divided by the scale, rounded, at least one.
pub fn kwin_virtual_geometry(width: u32, height: u32, scale: &str) -> (r: (u32, u32))
    ensures
        r.0 == divided_extent(width as nat, scale_value_spec(scale@, unit_scale())),
        r.1 == divided_extent(height as nat, scale_value_spec(scale@, unit_scale())),
{
    let factor = scale_value(scale, one());
    (divide_extent(width, factor), divide_extent(height, factor))
}

/// The font DPI for a scale: `96 * scale` rounded, saturated to `i64`, at
/// least one, then narrowed to 32 bits.
pub open spec fn scale_dpi_spec(scale: Seq<char>) -> u32 {
    let r = multiplied_rounded(96, scale_value_spec(scale, unit_scale()));
    let r1: nat = if r < 1 {
        1
    } else {
        r
    };
    (r1 % 0x1_0000_0000) as u32
}

/// The font DPI Plasma uses for a scale.
pub fn plasma_scale_dpi(scale: &str) -> (r: u32)
    ensures
        r == scale_dpi_spec(scale@),
{
    let v = scale_value(scale, one());
    let r = multiply_rounded(96, v);
    let r1: u64 = if r < 1 {
        1
    } else {
        r
    };
    (r1 % 0x1_0000_0000) as u32
}

/// `Virtual-0=<s>;ArchSunshine=<s>;` for the displayed scale `s`.
pub open spec fn screen_scale_factors_spec(scale: Seq<char>) -> Seq<char> {
    let text = magnitude_text(scale_value_spec(scale, unit_scale()));
    "Virtual-0="@ + text + ";"@ + "ArchSunshine="@ + text + ";"@
}

/// The per-output scale setting Plasma reads.
pub fn plasma_screen_scale_factors(scale: &str) -> (r: String)
    ensures
        r@ == screen_scale_factors_spec(scale@),
{
    let text = format_scale(scale_value(scale, one()));
    let mut out = owned("Virtual-0=");
    push_str(&mut out, text.as_str());
    push_str(&mut out, ";");
    push_str(&mut out, "ArchSunshine=");
    push_str(&mut out, text.as_str());
    push_str(&mut out, ";");
    out
}

// ---------------------------------------------------------------------------
// Default and requested geometry
// ---------------------------------------------------------------------------

/// A stream geometry: width, height, refresh rate and scale.
pub struct Geometry {
    pub width: u32,
    pub height: u32,
    pub fps: String,
    pub scale: String,
}

/// The desktop's default geometry from the `SUNSHINE_*` settings.
pub open spec fn default_geometry_spec(env: DisplayEnv) -> (u32, u32, Seq<char>, Seq<char>) {
    let width = match env.width {
        Some(w) => positive_int_spec(w@, DEFAULT_WIDTH, 8192),
        None => DEFAULT_WIDTH,
    };
    let height = match env.height {
        Some(h) => positive_int_spec(h@, DEFAULT_HEIGHT, 8192),
        None => DEFAULT_HEIGHT,
    };
    let fps = refresh_rate_spec(env_or(env.fps, DEFAULT_FPS@), DEFAULT_FPS@);
    let scale = session_scale_spec(width, height, env_or(env.scale, DEFAULT_SCALE@));
    (width, height, fps, scale)
}

/// The desktop's default geometry.
pub fn default_geometry(env: &DisplayEnv) -> (r: Geometry)
    ensures
        (r.width, r.height, r.fps@, r.scale@) == default_geometry_spec(*env),
{
    let width = match &env.width {
        Some(w) => sanitize_positive_int(w.as_str(), DEFAULT_WIDTH, 8192),
        None => DEFAULT_WIDTH,
    };
    let height = match &env.height {
        Some(h) => sanitize_positive_int(h.as_str(), DEFAULT_HEIGHT, 8192),
        None => DEFAULT_HEIGHT,
    };
    let fps = sanitize_refresh_rate(env_text(&env.fps, DEFAULT_FPS), DEFAULT_FPS);
    let scale = resolve_session_scale(width, height, env_text(&env.scale, DEFAULT_SCALE));
    Geometry { width, height, fps, scale }
}

/// The geometry a connecting client asked for, each part falling back to the
/// default geometry.
pub open spec fn client_geometry_spec(env: DisplayEnv) -> (u32, u32, Seq<char>, Seq<char>) {
    let (dw, dh, df, _ds) = default_geometry_spec(env);
    let width = match env.client_width {
        Some(w) => positive_int_spec(w@, dw, 8192),
        None => dw,
    };
    let height = match env.client_height {
        Some(h) => positive_int_spec(h@, dh, 8192),
        None => dh,
    };
    let fps = refresh_rate_spec(env_or(env.client_fps, df), df);
    let scale = client_scale_spec(
        width,
        height,
        env_or(env.scale, "auto"@),
        env_or(env.client_scale, "auto"@),
    );
    (width, height, fps, scale)
}

/// The geometry a connecting client asked for.
pub fn requested_client_geometry(env: &DisplayEnv) -> (r: Geometry)
    ensures
        (r.width, r.height, r.fps@, r.scale@) == client_geometry_spec(*env),
{
    let d = default_geometry(env);
    let width = match &env.client_width {
        Some(w) => sanitize_positive_int(w.as_str(), d.width, 8192),
        None => d.width,
    };
    let height = match &env.client_height {
        Some(h) => sanitize_positive_int(h.as_str(), d.height, 8192),
        None => d.height,
    };
    let fps = sanitize_refresh_rate(env_text(&env.client_fps, d.fps.as_str()), d.fps.as_str());
    let scale = resolve_client_scale(width, height, env);
    Geometry { width, height, fps, scale }
}

} // verus!
