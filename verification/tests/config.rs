use hypr_rdp::audio::AudioMode;
use hypr_rdp::capture::CaptureMode;
use hypr_rdp::config::{
    config_file_values, config_location, parse_audio_mode, parse_capture_mode, parse_egfx_codec_policy,
    parse_keyboard_layout_policy, parse_rate_control, parse_resolution, resolve_audio_mode,
    resolve_egfx_codec_policy, resolve_keyboard_layout_policy, AccessWarning, ConfigError,
    ConfigLocation, ConfigRead, ConfigValues, RuntimeConfig,
};
use hypr_rdp::egfx::policy::EgfxCodecPolicy;
use hypr_rdp::egfx::rate_control::H264RateControl;
use hypr_rdp::input::KeyboardLayoutPolicy;

fn nothing() -> ConfigValues {
    ConfigValues {
        bind: None,
        cert: None,
        key: None,
        username: None,
        password: None,
        resolution: None,
        capture_mode: None,
        bitrate: None,
        quality: None,
        rate_control: None,
        fps: None,
        max_frames_in_flight: None,
        egfx_codec: None,
        keyboard_layout_policy: None,
        audio_mode: None,
        output: None,
        on_client_connect: None,
        on_client_disconnect: None,
    }
}

#[test]
fn parses_egfx_codec_policy_values() {
    assert_eq!(parse_egfx_codec_policy("auto").unwrap(), EgfxCodecPolicy::Auto);
    assert_eq!(parse_egfx_codec_policy("avc420").unwrap(), EgfxCodecPolicy::Avc420);
    assert_eq!(parse_egfx_codec_policy("avc444").unwrap(), EgfxCodecPolicy::Avc444);
    assert!(parse_egfx_codec_policy("h264").is_err());
}

#[test]
fn parses_keyboard_layout_policy_values() {
    assert_eq!(
        parse_keyboard_layout_policy("client").unwrap(),
        KeyboardLayoutPolicy::Client
    );
    assert_eq!(
        parse_keyboard_layout_policy("compositor").unwrap(),
        KeyboardLayoutPolicy::Compositor
    );
    assert!(parse_keyboard_layout_policy("hyprland").is_err());
}

#[test]
fn parses_audio_mode_values() {
    assert_eq!(parse_audio_mode("mirror").unwrap(), AudioMode::Mirror);
    assert_eq!(parse_audio_mode("redirect").unwrap(), AudioMode::Redirect);
    assert_eq!(parse_audio_mode("off").unwrap(), AudioMode::Off);
    assert!(parse_audio_mode("local").is_err());
}

#[test]
fn default_egfx_codec_policy_is_avc420() {
    let policy = resolve_egfx_codec_policy(None, None).unwrap();

    assert_eq!(policy, EgfxCodecPolicy::Avc420);
}

#[test]
fn default_keyboard_layout_policy_uses_client_layout() {
    let policy = resolve_keyboard_layout_policy(None, None).unwrap();

    assert_eq!(policy, KeyboardLayoutPolicy::Client);
}

#[test]
fn default_audio_mode_is_redirect() {
    let mode = resolve_audio_mode(None, None).unwrap();

    assert_eq!(mode, AudioMode::Redirect);
}

#[test]
fn explicit_egfx_codec_policy_overrides_default_and_config() {
    assert_eq!(
        resolve_egfx_codec_policy(None, Some("avc444".into())).unwrap(),
        EgfxCodecPolicy::Avc444
    );
    assert_eq!(
        resolve_egfx_codec_policy(Some("avc420".into()), Some("avc444".into())).unwrap(),
        EgfxCodecPolicy::Avc420
    );
}

#[test]
fn explicit_keyboard_layout_policy_overrides_default_and_config() {
    assert_eq!(
        resolve_keyboard_layout_policy(None, Some("compositor".into())).unwrap(),
        KeyboardLayoutPolicy::Compositor
    );
    assert_eq!(
        resolve_keyboard_layout_policy(Some("client".into()), Some("compositor".into())).unwrap(),
        KeyboardLayoutPolicy::Client
    );
}

#[test]
fn explicit_audio_mode_overrides_default_and_config() {
    assert_eq!(
        resolve_audio_mode(None, Some("redirect".into())).unwrap(),
        AudioMode::Redirect
    );
    assert_eq!(
        resolve_audio_mode(Some("off".into()), Some("redirect".into())).unwrap(),
        AudioMode::Off
    );
}

#[test]
fn parses_capture_mode_values() {
    assert_eq!(parse_capture_mode("wlr").unwrap(), CaptureMode::Wlr);
    assert_eq!(parse_capture_mode("ext").unwrap(), CaptureMode::Ext);
    assert!(parse_capture_mode("invalid").is_err());
}

#[test]
fn parses_rate_control_values() {
    assert_eq!(parse_rate_control("vbr").unwrap(), H264RateControl::Vbr);
    assert_eq!(parse_rate_control("cqp").unwrap(), H264RateControl::Cqp);
    assert!(parse_rate_control("VBR").is_err());
    assert!(parse_rate_control("").is_err());
}

#[test]
fn resolutions_are_rounded_to_even_or_rejected() {
    for width in [0u32, 1, 2, 3, 4, 1919, 1920, 65534, 65535] {
        for height in [0u32, 1, 2, 3, 1080, 1081, 65535] {
            let parsed = parse_resolution(&format!("{width}x{height}"));
            let (w, h) = (width & !1, height & !1);
            if w >= 2 && h >= 2 {
                assert_eq!(parsed.unwrap(), (w, h));
            } else {
                assert!(parsed.is_err());
            }
        }
    }
}

#[test]
fn resolutions_above_the_wire_limit_are_rejected() {
    for wide in [65536u32, 100_000, u32::MAX] {
        assert_eq!(
            parse_resolution(&format!("{wide}x1080")),
            Err(ConfigError::ResolutionTooLarge)
        );
        assert_eq!(
            parse_resolution(&format!("1920x{wide}")),
            Err(ConfigError::ResolutionTooLarge)
        );
    }
}

#[test]
fn resolution_errors_say_what_is_wrong() {
    for text in ["", "1920", "1920x", "x", "1920x1080x60", "1920X1080", "xx"] {
        let expected = match text {
            "1920x" => ConfigError::ResolutionHeight,
            "x" => ConfigError::ResolutionWidth,
            _ => ConfigError::ResolutionFormat,
        };
        assert_eq!(parse_resolution(text), Err(expected), "{text}");
    }
    assert_eq!(parse_resolution("-1x5"), Err(ConfigError::ResolutionWidth));
    assert_eq!(parse_resolution("4294967296x5"), Err(ConfigError::ResolutionWidth));
    assert_eq!(parse_resolution("99999999999999999999x5"), Err(ConfigError::ResolutionWidth));
    assert_eq!(parse_resolution("5x+"), Err(ConfigError::ResolutionHeight));
    assert_eq!(parse_resolution("5x 5"), Err(ConfigError::ResolutionHeight));
    assert_eq!(parse_resolution("0x5"), Err(ConfigError::ResolutionZero));
    assert_eq!(parse_resolution("1x5"), Err(ConfigError::ResolutionTooSmall));
    assert_eq!(parse_resolution("+0001920x1080"), Ok((1920, 1080)));
    assert_eq!(parse_resolution("\u{661}x5"), Err(ConfigError::ResolutionWidth));
}

#[test]
fn the_defaults_load() {
    let config = RuntimeConfig::load(nothing(), nothing(), 4).expect("defaults load");
    assert_eq!(config.bind, "127.0.0.1:3389");
    assert_eq!(config.cert, None);
    assert_eq!(config.username, "");
    assert_eq!(config.password, "");
    assert_eq!(config.resolution, (1920, 1080));
    assert_eq!(config.capture_mode, CaptureMode::Wlr);
    assert_eq!(config.bitrate, 10_000_000);
    assert_eq!(config.quality, 23);
    assert_eq!(config.rate_control, H264RateControl::Vbr);
    assert_eq!(config.fps, 30);
    assert_eq!(config.max_frames_in_flight, 4);
    assert_eq!(config.egfx_codec, EgfxCodecPolicy::Avc420);
    assert_eq!(config.keyboard_layout_policy, KeyboardLayoutPolicy::Client);
    assert_eq!(config.audio_mode, AudioMode::Redirect);
    assert!(!config.resolution_fixed);
    assert_eq!(config.output, None);
    assert_eq!(config.access_warning(), Some(AccessWarning::NoCredentials));
}

#[test]
fn the_command_line_comes_before_the_file() {
    let args = ConfigValues {
        bind: Some("0.0.0.0:1".into()),
        fps: Some(60),
        username: Some("a".into()),
        ..nothing()
    };
    let file = ConfigValues {
        bind: Some("b".into()),
        fps: Some(25),
        quality: Some(51),
        resolution: Some("801x601".into()),
        output: Some("DP-2".into()),
        on_client_connect: Some("c".into()),
        ..nothing()
    };
    let config = RuntimeConfig::load(args, file, 4).expect("configuration loads");
    assert_eq!(config.bind, "0.0.0.0:1");
    assert_eq!(config.fps, 60);
    assert_eq!(config.quality, 51);
    assert_eq!(config.resolution, (800, 600));
    assert!(config.resolution_fixed);
    assert_eq!(config.output.as_deref(), Some("DP-2"));
    assert_eq!(config.on_client_connect.as_deref(), Some("c"));
    assert_eq!(config.on_client_disconnect, None);
    assert_eq!(
        config.access_warning(),
        Some(AccessWarning::NoCredentialsOnAllInterfaces)
    );
}

#[test]
fn a_full_set_of_credentials_is_no_warning() {
    let args = ConfigValues {
        username: Some("u".into()),
        password: Some("p".into()),
        ..nothing()
    };
    let config = RuntimeConfig::load(args, nothing(), 4).expect("configuration loads");
    assert_eq!(config.access_warning(), None);
}

#[test]
fn the_first_problem_of_a_configuration_is_reported() {
    let load = |change: fn(&mut ConfigValues)| {
        let mut file = nothing();
        change(&mut file);
        RuntimeConfig::load(nothing(), file, 4).expect_err("a problem").message()
    };
    assert_eq!(
        load(|c| c.rate_control = Some("x".into())),
        "unknown rate control 'x', expected 'vbr' or 'cqp'"
    );
    assert_eq!(
        load(|c| c.egfx_codec = Some("x".into())),
        "unknown EGFX codec 'x', expected 'auto', 'avc420', or 'avc444'"
    );
    assert_eq!(
        load(|c| c.keyboard_layout_policy = Some("x".into())),
        "unknown keyboard layout policy 'x', expected 'client' or 'compositor'"
    );
    assert_eq!(
        load(|c| c.audio_mode = Some("x".into())),
        "unknown audio mode 'x', expected 'mirror', 'redirect', or 'off'"
    );
    assert_eq!(
        load(|c| c.capture_mode = Some("x".into())),
        "unknown capture mode 'x', expected 'ext' or 'wlr'"
    );
    assert_eq!(
        load(|c| c.resolution = Some("1".into())),
        "invalid resolution format, expected WxH (e.g. 1920x1080)"
    );
    assert_eq!(load(|c| c.resolution = Some("ax1".into())), "invalid width");
    assert_eq!(load(|c| c.resolution = Some("1xa".into())), "invalid height");
    assert_eq!(
        load(|c| c.resolution = Some("0x2".into())),
        "resolution dimensions must be non-zero"
    );
    assert_eq!(
        load(|c| c.resolution = Some("2x65536".into())),
        "resolution dimensions must be <= 65535"
    );
    assert_eq!(
        load(|c| c.resolution = Some("2x1".into())),
        "resolution too small (minimum 2x2 for H.264)"
    );
    assert_eq!(load(|c| c.quality = Some(52)), "quality must be 0-51");
    assert_eq!(load(|c| c.fps = Some(0)), "fps must be > 0");
    assert_eq!(
        load(|c| c.max_frames_in_flight = Some(0)),
        "max-frames-in-flight must be > 0"
    );
    // Texts are looked at before numbers, and the rate control before all else.
    assert_eq!(
        load(|c| {
            c.fps = Some(0);
            c.capture_mode = Some("y".into());
            c.rate_control = Some("x".into());
        }),
        "unknown rate control 'x', expected 'vbr' or 'cqp'"
    );
    assert_eq!(
        load(|c| {
            c.fps = Some(0);
            c.capture_mode = Some("y".into());
        }),
        "unknown capture mode 'y', expected 'ext' or 'wlr'"
    );
}

#[test]
fn a_named_configuration_file_must_be_there() {
    let missing = |not_found: bool| ConfigRead::Unreadable {
        not_found,
        cause: "No such file".into(),
    };
    let named = config_location(Some("a.toml".into()), Some("/home/me".into()));
    assert_eq!(named, ConfigLocation::Explicit("a.toml".into()));
    assert_eq!(
        config_file_values(&named, "a.toml", missing(true)).err().as_deref(),
        Some("failed to read config a.toml: No such file")
    );
    let usual = config_location(None, Some("/home/me".into()));
    assert_eq!(usual, ConfigLocation::UnderHome("/home/me".into()));
    let defaults = config_file_values(&usual, "x", missing(true)).expect("defaults are used");
    assert_eq!(defaults.bind, None);
    assert_eq!(
        config_file_values(&usual, "x", missing(false)).err().as_deref(),
        Some("failed to read config x: No such file")
    );
    assert_eq!(config_location(None, None), ConfigLocation::Nowhere);
}

#[test]
fn a_malformed_configuration_file_is_an_error() {
    let usual = config_location(None, Some("/home/me".into()));
    let malformed = ConfigRead::Malformed { cause: "unclosed array".into() };
    assert_eq!(
        config_file_values(&usual, "x", malformed).err().as_deref(),
        Some("failed to parse config x: unclosed array")
    );
    let values = ConfigValues {
        bind: Some("127.0.0.1:3390".into()),
        username: Some("alice".into()),
        ..nothing()
    };
    let loaded = config_file_values(&usual, "x", ConfigRead::Values(values)).expect("loads");
    assert_eq!(loaded.bind.as_deref(), Some("127.0.0.1:3390"));
    assert_eq!(loaded.username.as_deref(), Some("alice"));
}
