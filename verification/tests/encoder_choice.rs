use arch_sunshine::encoder::{
    build_pipeline, choose_encoder, chosen_encoder_summary, encoder_is_usable,
    encoder_missing_features, encoder_status, hardware_probe, render_nodes_of, render_template,
    not_configured_message, unknown_source_message, vaapi_encode_codecs, EncoderEntry, EncoderError, HardwareProbe, PipelineConfig, PipelineError,
    PipelineRequest,
};

fn s(v: &str) -> String {
    v.to_string()
}

fn strings(v: &[&str]) -> Vec<String> {
    v.iter().map(|x| x.to_string()).collect()
}

fn entry(name: &str, elements: &[&str], hardware: bool, pipeline: &str) -> EncoderEntry {
    EncoderEntry { name: s(name), elements: strings(elements), hardware, pipeline: s(pipeline) }
}

fn config() -> PipelineConfig {
    PipelineConfig {
        defaults: vec![(s("speed"), s("8")), (s("width"), s("999"))],
        video_sources: vec![
            (s("pipewire"), s("pipewiresrc path={pipewire_node}")),
            (s("test"), s("videotestsrc ! video/x-raw,width={width},height={height},framerate={fps}/1")),
        ],
        payloader: vec![(s("h264"), s("rtph264pay mtu={payload_mtu}")), (s("av1"), s("rtpav1pay"))],
        encoders: vec![
            (
                s("h264"),
                vec![
                    entry("vaapi-h264", &["vah264enc"], true, "vah264enc bitrate={bitrate_kbps}"),
                    entry("x264", &["x264enc"], false, "x264enc bitrate={bitrate_kbps} speed-preset={speed}"),
                ],
            ),
            (
                s("av1"),
                vec![
                    entry("nvcodec-av1", &["nvav1enc"], true, "nvav1enc"),
                    entry("svt-av1", &["svtav1enc"], false, "svtav1enc"),
                ],
            ),
            (s("hevc"), vec![entry("qsv-hevc", &["qsvh265enc"], true, "qsvh265enc")]),
        ],
    }
}

fn gpu() -> HardwareProbe {
    HardwareProbe {
        render_nodes: strings(&["/dev/dri/renderD128"]),
        vaapi_encode: strings(&["h264", "hevc"]),
        nvidia_devices: false,
    }
}

fn no_gpu() -> HardwareProbe {
    HardwareProbe { render_nodes: vec![], vaapi_encode: vec![], nvidia_devices: false }
}

fn all_elements() -> Vec<String> {
    strings(&["vah264enc", "x264enc", "nvav1enc", "svtav1enc", "qsvh265enc"])
}

#[test]
fn default_choice_prefers_usable_hardware() {
    let c = config();
    let e = choose_encoder(&c, "h264", None, &all_elements(), &gpu()).ok().unwrap();
    assert_eq!(e.name, "vaapi-h264");
}

#[test]
fn default_choice_falls_back_to_software_for_h264() {
    let c = config();
    let e = choose_encoder(&c, "h264", None, &all_elements(), &no_gpu()).ok().unwrap();
    assert_eq!(e.name, "x264");
}

#[test]
fn av1_never_falls_back_to_software_by_default() {
    let c = config();
    let err = choose_encoder(&c, "av1", None, &all_elements(), &gpu()).err().unwrap();
    assert!(matches!(err, EncoderError::NoHardwareAv1));
    assert_eq!(
        err.message(),
        "no usable hardware AV1 encoder found; request a software encoder explicitly if this is only a diagnostic pipeline"
    );
    let mut nvidia = gpu();
    nvidia.nvidia_devices = true;
    let e = choose_encoder(&c, "av1", None, &all_elements(), &nvidia).ok().unwrap();
    assert_eq!(e.name, "nvcodec-av1");
}

#[test]
fn a_requested_software_encoder_is_used() {
    let c = config();
    let e = choose_encoder(&c, "av1", Some("svt-av1"), &all_elements(), &gpu()).ok().unwrap();
    assert_eq!(e.name, "svt-av1");
}

#[test]
fn unknown_codec_and_unknown_name_are_refused() {
    let c = config();
    let err = choose_encoder(&c, "vp9", None, &all_elements(), &gpu()).err().unwrap();
    assert_eq!(err.message(), "unsupported codec: vp9");
    let err = choose_encoder(&c, "h264", Some("nope"), &all_elements(), &gpu()).err().unwrap();
    assert_eq!(err.message(), "encoder \"nope\" is not configured for h264");
}

#[test]
fn nothing_usable_lists_what_each_encoder_lacks() {
    let c = config();
    let err = choose_encoder(&c, "h264", None, &[], &no_gpu()).err().unwrap();
    assert_eq!(
        err.message(),
        "no usable h264 encoder found: vaapi-h264 missing vah264enc,render-node,vaapi-h264-encode, x264 missing x264enc"
    );
    let err = choose_encoder(&c, "h264", Some("x264"), &[], &gpu()).err().unwrap();
    assert_eq!(err.message(), "no usable h264 encoder found: x264 missing x264enc");
}

#[test]
fn missing_features_by_encoder_family() {
    let vaapi = entry("vaapi-av1", &[], true, "");
    assert_eq!(encoder_missing_features("av1", &vaapi, &gpu()), strings(&["vaapi-av1-encode"]));
    assert_eq!(
        encoder_missing_features("av1", &vaapi, &no_gpu()),
        strings(&["render-node", "vaapi-av1-encode"])
    );
    let qsv = entry("qsv-h264", &[], true, "");
    assert_eq!(encoder_missing_features("h264", &qsv, &no_gpu()), strings(&["render-node"]));
    assert!(encoder_missing_features("h264", &qsv, &gpu()).is_empty());
    let nv = entry("nvcodec-h264", &[], true, "");
    assert_eq!(encoder_missing_features("h264", &nv, &gpu()), strings(&["nvidia-device"]));
    let sw = entry("x264", &[], false, "");
    assert!(encoder_missing_features("h264", &sw, &no_gpu()).is_empty());
    assert!(encoder_is_usable("h264", &sw, &[], &no_gpu()));
}

#[test]
fn templates_fill_known_keys_and_keep_unknown_ones() {
    let values = vec![(s("a"), s("1")), (s("b"), s("2")), (s("a"), s("shadowed"))];
    assert_eq!(render_template("{a}-{b}", &values), "1-2");
    assert_eq!(render_template("{a}-{c}", &values), "1-{c}");
    assert_eq!(render_template("x{a", &values), "x1");
    assert_eq!(render_template("x{c", &values), "x{c}");
    assert_eq!(render_template("plain text", &values), "plain text");
    assert_eq!(render_template("{}", &values), "{}");
    assert_eq!(render_template("{", &values), "{}");
}

fn request<'a>(codec: &'a str, encoder: Option<&'a str>, source: &'a str) -> PipelineRequest<'a> {
    PipelineRequest {
        codec,
        encoder,
        source,
        pipewire_node: "42",
        width: 1920,
        height: 1080,
        fps: 60,
        bitrate: 25000,
        vbv_buffer: 25000,
        payload_mtu: 1200,
        host: "127.0.0.1",
        port: 5004,
    }
}

#[test]
fn pipeline_text_for_a_request() {
    let c = config();
    let (name, pipeline) = build_pipeline(&request("h264", None, "test"), &c, &all_elements(), &no_gpu()).ok().unwrap();
    assert_eq!(name, "x264");
    assert_eq!(
        pipeline,
        "videotestsrc ! video/x-raw,width=1920,height=1080,framerate=60/1 ! queue max-size-buffers=2 leaky=downstream ! x264enc bitrate=25000 speed-preset=8 ! rtph264pay mtu=1200 ! queue max-size-buffers=2 leaky=downstream ! udpsink host=127.0.0.1 port=5004 sync=false async=false"
    );
}

#[test]
fn pipeline_errors() {
    let c = config();
    let err = build_pipeline(&request("h264", None, "screen"), &c, &all_elements(), &gpu()).err().unwrap();
    assert!(matches!(err, PipelineError::UnknownSource { .. }));
    assert_eq!(err.message(), "unknown source \"screen\"");
    let err = build_pipeline(&request("hevc", None, "test"), &c, &all_elements(), &gpu()).err().unwrap();
    assert_eq!(err.message(), "missing payloader for hevc");
    let err = build_pipeline(&request("vp8", None, "test"), &c, &all_elements(), &gpu()).err().unwrap();
    assert!(matches!(err, PipelineError::Encoder(EncoderError::UnsupportedCodec { .. })));
}

#[test]
fn status_reports_every_encoder() {
    let c = config();
    let st = encoder_status(&c, &strings(&["x264enc", "svtav1enc"]), &gpu());
    assert_eq!(st.len(), 3);
    assert_eq!(st[0].0, "h264");
    let vaapi = &st[0].1[0];
    assert!(!vaapi.usable && !vaapi.recommended);
    assert_eq!(vaapi.missing_elements, strings(&["vah264enc"]));
    let x264 = &st[0].1[1];
    assert!(x264.usable && !x264.recommended);
    assert_eq!(x264.warnings, strings(&["software encoder; use only as an explicit fallback"]));
    let svt = &st[1].1[1];
    assert_eq!(
        svt.warnings,
        strings(&[
            "software encoder; use only as an explicit fallback",
            "software AV1 is not selected by default for gaming streams"
        ])
    );
    let nv = &st[1].1[0];
    assert_eq!(nv.missing_features, strings(&["nvidia-device"]));
}

#[test]
fn summary_names_the_default_choice_per_codec() {
    let c = config();
    let summary = chosen_encoder_summary(&c, &all_elements(), &gpu());
    let pairs: Vec<(String, Option<String>)> = summary.into_iter().map(|e| (e.codec, e.chosen)).collect();
    assert_eq!(
        pairs,
        vec![
            (s("h264"), Some(s("vaapi-h264"))),
            (s("hevc"), Some(s("qsv-hevc"))),
            (s("av1"), None),
        ]
    );
}

#[test]
fn hardware_probe_from_devices_and_vainfo() {
    let entries = strings(&["renderD129", "card0", "renderD128", "by-path"]);
    assert_eq!(render_nodes_of(&entries), strings(&["/dev/dri/renderD128", "/dev/dri/renderD129"]));
    let vainfo = "vainfo: Driver version: Mesa\n      VAProfileH264Main               :\tVAEntrypointEncSlice\n      VAProfileHEVCMain               :\tVAEntrypointVLD\n      VAProfileAV1Profile0            :\tVAEntrypointEncSlice\n";
    let probe = hardware_probe(&entries, Some(vainfo), true);
    assert_eq!(probe.vaapi_encode, strings(&["av1", "h264"]));
    assert!(probe.nvidia_devices);
    assert!(vaapi_encode_codecs(&[], Some(vainfo)).is_empty());
    assert!(vaapi_encode_codecs(&strings(&["/dev/dri/renderD128"]), None).is_empty());
    let h265 = "VAProfileHEVCMain : VAEntrypointEncSliceLP H265\n";
    assert_eq!(vaapi_encode_codecs(&strings(&["/dev/dri/renderD128"]), Some(h265)), strings(&["hevc"]));
}

#[test]
fn messages_from_quoted_text() {
    assert_eq!(not_configured_message("\"x\\ty\"", "hevc"), "encoder \"x\\ty\" is not configured for hevc");
    assert_eq!(unknown_source_message("\"cam\""), "unknown source \"cam\"");
    let quoted = format!("{:?}", "a\tb");
    assert_eq!(not_configured_message(&quoted, "av1"), "encoder \"a\\tb\" is not configured for av1");
}
