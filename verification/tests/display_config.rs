use arch_sunshine::env_config::{
    audio_channels_from_configuration, default_audio_channels, default_geometry, format_scale,
    kwin_virtual_geometry, one, plasma_scale_dpi, plasma_screen_scale_factors,
    requested_audio_channels, requested_client_geometry, resolve_client_scale,
    resolve_session_scale, sanitize_audio_channels, sanitize_positive_int, sanitize_refresh_rate,
    sanitize_scale_request, scale_value, DisplayEnv,
};

fn no_env() -> DisplayEnv {
    DisplayEnv {
        width: None,
        height: None,
        fps: None,
        scale: None,
        client_width: None,
        client_height: None,
        client_fps: None,
        client_scale: None,
        audio_channels: None,
        client_audio_configuration: None,
    }
}

#[test]
fn positive_ints_are_bounded() {
    assert_eq!(sanitize_positive_int("2560", 1920, 8192), 2560);
    assert_eq!(sanitize_positive_int("0", 1920, 8192), 1920);
    assert_eq!(sanitize_positive_int("-5", 1920, 8192), 1920);
    assert_eq!(sanitize_positive_int("8193", 1920, 8192), 1920);
    assert_eq!(sanitize_positive_int("8192", 1920, 8192), 8192);
    assert_eq!(sanitize_positive_int("abc", 1080, 8192), 1080);
    assert_eq!(sanitize_positive_int("+720", 1080, 8192), 720);
}

#[test]
fn refresh_rates_are_checked_and_formatted() {
    assert_eq!(sanitize_refresh_rate("59.94", "60"), "59.94");
    assert_eq!(sanitize_refresh_rate("60.0", "60"), "60");
    assert_eq!(sanitize_refresh_rate("120", "60"), "120");
    assert_eq!(sanitize_refresh_rate("240", "60"), "240");
    assert_eq!(sanitize_refresh_rate("240.5", "60"), "60");
    assert_eq!(sanitize_refresh_rate("0", "60"), "60");
    assert_eq!(sanitize_refresh_rate("-30", "60"), "60");
    assert_eq!(sanitize_refresh_rate("abc", "60"), "60");
    assert_eq!(sanitize_refresh_rate("nan", "60"), "60");
    assert_eq!(sanitize_refresh_rate("1e2", "60"), "100");
}

#[test]
fn audio_channels_are_two_six_or_eight() {
    assert_eq!(sanitize_audio_channels("6", 2), 6);
    assert_eq!(sanitize_audio_channels("8", 2), 8);
    assert_eq!(sanitize_audio_channels("4", 2), 2);
    assert_eq!(sanitize_audio_channels("x", 6), 6);
    assert_eq!(audio_channels_from_configuration(" 5.1 ", 2), 6);
    assert_eq!(audio_channels_from_configuration("7.1", 2), 8);
    assert_eq!(audio_channels_from_configuration("2.0", 8), 2);
    assert_eq!(audio_channels_from_configuration("8", 2), 8);
    assert_eq!(audio_channels_from_configuration("", 6), 6);
}

#[test]
fn audio_channels_from_the_environment() {
    let mut env = no_env();
    assert_eq!(default_audio_channels(&env), 2);
    env.audio_channels = Some("6".to_string());
    assert_eq!(default_audio_channels(&env), 6);
    assert_eq!(requested_audio_channels(&env), 6);
    env.client_audio_configuration = Some("7.1".to_string());
    assert_eq!(requested_audio_channels(&env), 8);
}

#[test]
fn scale_requests() {
    assert_eq!(sanitize_scale_request(" auto ", "1"), "auto");
    assert_eq!(sanitize_scale_request("1.50", "auto"), "1.5");
    assert_eq!(sanitize_scale_request("0.5", "auto"), "0.5");
    assert_eq!(sanitize_scale_request("0.49", "auto"), "auto");
    assert_eq!(sanitize_scale_request("4", "auto"), "4");
    assert_eq!(sanitize_scale_request("4.01", "auto"), "auto");
    assert_eq!(sanitize_scale_request("two", "auto"), "auto");
}

#[test]
fn sanitizing_twice_changes_nothing() {
    for raw in ["59.940", "0.0125", "1e2", "240", "6e1", "abc", "300"] {
        let once = sanitize_refresh_rate(raw, "60");
        assert_eq!(sanitize_refresh_rate(&once, "60"), once);
    }
    assert_eq!(sanitize_refresh_rate("0.0125", "60"), "0.0125");
    for raw in [" 1.50 ", "auto", "4", "0.5", "2.25e0", "nope"] {
        let once = sanitize_scale_request(raw, "auto");
        assert_eq!(sanitize_scale_request(&once, "auto"), once);
    }
    assert_eq!(sanitize_scale_request("2.25e0", "auto"), "2.25");
}

#[test]
fn session_scale_follows_the_resolution() {
    assert_eq!(resolve_session_scale(3840, 2160, "auto"), "2");
    assert_eq!(resolve_session_scale(2880, 1800, "auto"), "1.75");
    assert_eq!(resolve_session_scale(2560, 1440, "auto"), "1.5");
    assert_eq!(resolve_session_scale(1921, 1080, "auto"), "1.25");
    assert_eq!(resolve_session_scale(1920, 1200, "auto"), "1.25");
    assert_eq!(resolve_session_scale(1920, 1080, "auto"), "1");
    assert_eq!(resolve_session_scale(1920, 1080, "1.5"), "1.5");
    assert_eq!(resolve_session_scale(1920, 1080, "9"), "1");
}

#[test]
fn client_scale_takes_the_larger_of_auto_and_client() {
    let mut env = no_env();
    assert_eq!(resolve_client_scale(2560, 1440, &env), "1.5");
    env.client_scale = Some("2".to_string());
    assert_eq!(resolve_client_scale(2560, 1440, &env), "2");
    env.client_scale = Some("1.25".to_string());
    assert_eq!(resolve_client_scale(2560, 1440, &env), "1.5");
    env.scale = Some("1.75".to_string());
    assert_eq!(resolve_client_scale(2560, 1440, &env), "1.75");
}

#[test]
fn kwin_geometry_divides_by_the_scale() {
    assert_eq!(kwin_virtual_geometry(2560, 1440, "1.5"), (1707, 960));
    assert_eq!(kwin_virtual_geometry(1920, 1080, "1"), (1920, 1080));
    assert_eq!(kwin_virtual_geometry(3840, 2160, "2"), (1920, 1080));
    assert_eq!(kwin_virtual_geometry(1920, 1080, "bad"), (1920, 1080));
    assert_eq!(kwin_virtual_geometry(1, 1, "4"), (1, 1));
}

#[test]
fn plasma_dpi_and_factors() {
    assert_eq!(plasma_scale_dpi("1.25"), 120);
    assert_eq!(plasma_scale_dpi("2"), 192);
    assert_eq!(plasma_scale_dpi("1.75"), 168);
    assert_eq!(plasma_scale_dpi("bad"), 96);
    assert_eq!(plasma_screen_scale_factors("1.5"), "Virtual-0=1.5;ArchSunshine=1.5;");
    assert_eq!(format_scale(scale_value("2.0", one())), "2");
}

#[test]
fn default_and_client_geometry() {
    let mut env = no_env();
    let d = default_geometry(&env);
    assert_eq!((d.width, d.height, d.fps.as_str(), d.scale.as_str()), (1920, 1080, "60", "1"));
    env.width = Some("3840".to_string());
    env.height = Some("2160".to_string());
    env.fps = Some("120".to_string());
    let d = default_geometry(&env);
    assert_eq!((d.width, d.height, d.fps.as_str(), d.scale.as_str()), (3840, 2160, "120", "2"));
    env.client_width = Some("2560".to_string());
    env.client_height = Some("1440".to_string());
    env.client_fps = Some("500".to_string());
    let c = requested_client_geometry(&env);
    assert_eq!((c.width, c.height, c.fps.as_str(), c.scale.as_str()), (2560, 1440, "120", "1.5"));
}

#[test]
fn session_scale_tiers_grow_with_the_size() {
    let sizes = [(1280, 720), (1920, 1080), (1921, 1080), (2560, 1440), (2880, 1800), (3840, 2160), (7680, 4320)];
    let mut last = 0.0f64;
    for (w, h) in sizes {
        let scale: f64 = resolve_session_scale(w, h, "auto").parse().unwrap();
        assert!(scale >= last, "{w}x{h}");
        last = scale;
    }
    assert_eq!(resolve_session_scale(1920, 1200, "nonsense"), "1.25");
    assert_eq!(resolve_session_scale(1920, 1200, "1.5"), "1.5");
}

#[test]
fn sanitized_scales_stay_in_range() {
    for raw in ["0.25", "0.5", "3.999", "4.5", "auto", "x", "2"] {
        let r = sanitize_scale_request(raw, "auto");
        if r != "auto" {
            let v: f64 = r.parse().unwrap();
            assert!((0.5..=4.0).contains(&v), "{raw} gave {r}");
        }
        assert_eq!(sanitize_scale_request(&r, "auto"), r);
    }
    assert_eq!(arch_sunshine::paths::DEFAULT_BITRATE_KBPS, 50000);
}
