use hypr_rdp::capture::display::{
    headless_monitor_rule, CaptureInfo, DesktopSize, DisplayConfig, DisplayError, GraphicsChannel,
    HyprDisplay, HyprDisplayInner, ReuseOutcome,
};
use hypr_rdp::capture::limits::clamp_to_h264_software_limits;
use hypr_rdp::capture::monitors::{
    headless_display_control_size, physical_display_control_size, MonitorEntry,
};
use hypr_rdp::capture::resize::{
    display_control_resize_decision, initial_size_resize_decision, normalize_presentation_size,
    startup_presentation_size, ResizeDecision, ResizeTarget,
};
use hypr_rdp::capture::scale::ScaleError;
use hypr_rdp::capture::CaptureMode;
use hypr_rdp::egfx::rate_control::H264RateControl;
use ironrdp_displaycontrol::pdu::{
    DeviceScaleFactor, DisplayControlMonitorLayout, MonitorLayoutEntry, MonitorOrientation,
};

fn single_primary(width: u32, height: u32) -> DisplayControlMonitorLayout {
    DisplayControlMonitorLayout::new(&[MonitorLayoutEntry::new_primary(width, height).unwrap()])
        .unwrap()
}

fn inner(
    output: Option<&str>,
    output_name: &str,
    resolution: (u32, u32),
    surface: bool,
) -> HyprDisplayInner {
    HyprDisplayInner {
        width: resolution.0 as u16,
        height: resolution.1 as u16,
        resolution,
        capture_mode: CaptureMode::Ext,
        output_name: output_name.to_string(),
        graphics: if surface {
            Some(GraphicsChannel {
                surface_size: Some((resolution.0 as u16, resolution.1 as u16)),
                resize_prepared: None,
            })
        } else {
            None
        },
        bitrate: 1_000_000,
        quality: 23,
        rate_control: H264RateControl::Vbr,
        fps: 30,
        output: output.map(str::to_string),
        resolution_fixed: false,
        pending_initial_resize: None,
    }
}

fn physical_display(resolution: (u32, u32)) -> HyprDisplay {
    HyprDisplay { inner: inner(Some("DP-1"), "DP-1", resolution, true) }
}

fn headless_display(resolution: (u32, u32)) -> HyprDisplay {
    HyprDisplay { inner: inner(None, "HEADLESS-1", resolution, false) }
}

/// The size that the graphics channel was last told.
fn told(display: &HyprDisplay) -> Option<(u16, u16)> {
    display.inner.graphics.and_then(|channel| channel.surface_size)
}

#[test]
fn h264_software_limit_keeps_supported_landscape_size() {
    assert_eq!(clamp_to_h264_software_limits(1920, 1200), (1920, 1200));
    assert_eq!(clamp_to_h264_software_limits(3840, 2160), (3840, 2160));
}

#[test]
fn h264_software_limit_scales_ultrawide_client_size() {
    assert_eq!(clamp_to_h264_software_limits(5120, 1440), (3840, 1080));
}

#[test]
fn h264_software_limit_scales_portrait_size() {
    assert_eq!(clamp_to_h264_software_limits(1440, 5120), (1080, 3840));
}

#[test]
fn h264_software_limit_rounds_to_even_dimensions() {
    assert_eq!(clamp_to_h264_software_limits(5121, 1441), (3840, 1080));
}

/// The same rule in double precision.
fn clamp_in_doubles(width: u32, height: u32) -> (u32, u32) {
    let width = width & !1;
    let height = height & !1;
    if width == 0 || height == 0 {
        return (width, height);
    }
    let long = width.max(height);
    let short = width.min(height);
    if long <= 3840 && short <= 2160 {
        return (width, height);
    }
    let scale = (3840.0 / long as f64).min(2160.0 / short as f64).min(1.0);
    (
        ((width as f64 * scale).floor() as u32).max(2) & !1,
        ((height as f64 * scale).floor() as u32).max(2) & !1,
    )
}

#[test]
fn the_limit_is_computed_as_doubles_compute_it() {
    let sides = [
        0u32, 1, 2, 3, 5, 719, 1080, 2158, 2160, 2161, 2162, 2163, 2300, 2500, 3000, 3838, 3840, 3841,
        3842, 3843, 3999, 4096, 4097, 5000, 5120, 5121, 6001, 7680, 7681, 8191, 10007, 16384, 20011,
        40000, 65535, 65536, 99999, 1_000_003, 16_777_215, 16_777_217, 123_456_789, 2_147_483_647,
        2_147_483_648, 4_000_000_001, 4_294_967_294, 4_294_967_295,
    ];
    for &width in &sides {
        for &height in &sides {
            assert_eq!(
                clamp_to_h264_software_limits(width, height),
                clamp_in_doubles(width, height),
                "{width}x{height}"
            );
        }
    }
    let mut state = 0x2545_f491_4f6c_dd1du64;
    for _ in 0..20_000 {
        state ^= state << 13;
        state ^= state >> 7;
        state ^= state << 17;
        let width = (state >> 40) as u32 % 20_000;
        let height = (state >> 8) as u32 % 20_000;
        assert_eq!(
            clamp_to_h264_software_limits(width, height),
            clamp_in_doubles(width, height),
            "{width}x{height}"
        );
    }
}

#[test]
fn clamped_sizes_are_within_the_limits_and_kept() {
    for (width, height) in [(7681, 4321), (100, 60_000), (4_294_967_295, 2), (3842, 2162)] {
        let (w, h) = clamp_to_h264_software_limits(width, height);
        assert!(w % 2 == 0 && h % 2 == 0);
        assert!(w.max(h) <= 3840 && w.min(h) <= 2160);
        assert_eq!(clamp_to_h264_software_limits(w, h), (w, h));
    }
    assert_eq!(clamp_to_h264_software_limits(1, 900), (0, 900));
}

#[test]
fn normalizing_needs_a_source_and_a_size() {
    assert_eq!(normalize_presentation_size((1281, 721), (1920, 1080)), (1280, 720));
    assert_eq!(normalize_presentation_size((1281, 1), (1920, 1080)), (0, 0));
    assert_eq!(normalize_presentation_size((1281, 721), (0, 1080)), (0, 0));
}

#[test]
fn physical_output_startup_keeps_explicit_resolution_for_letterboxing() {
    assert_eq!(
        startup_presentation_size(true, true, (1920, 1200), (3840, 1080)),
        (1920, 1200)
    );
    assert_eq!(
        startup_presentation_size(true, true, (1600, 900), (3840, 2160)),
        (1600, 900)
    );
}

#[test]
fn physical_output_startup_uses_source_size_when_resolution_is_omitted() {
    assert_eq!(
        startup_presentation_size(true, false, (1920, 1080), (3840, 2160)),
        (3840, 2160)
    );
}

#[test]
fn headless_startup_keeps_configured_session_resolution() {
    assert_eq!(
        startup_presentation_size(false, false, (1920, 1080), (3840, 2160)),
        (1920, 1080)
    );
}

#[test]
fn physical_output_initial_size_updates_presentation_only() {
    let decision =
        initial_size_resize_decision(true, false, (3840, 2160), (1600, 900), Some((3840, 2160)))
            .unwrap();

    assert_eq!(decision.target, ResizeTarget::PhysicalPresentation);
    assert_eq!((decision.width, decision.height), (1600, 900));
}

#[test]
fn physical_output_initial_size_keeps_client_size_for_letterboxing() {
    let decision =
        initial_size_resize_decision(true, false, (3840, 1080), (1920, 1200), Some((3840, 1080)))
            .unwrap();

    assert_eq!(decision.target, ResizeTarget::PhysicalPresentation);
    assert_eq!((decision.width, decision.height), (1920, 1200));
}

#[test]
fn physical_output_size_negotiation_reaches_fixed_point_immediately() {
    let source = Some((3840, 2160));
    let decision =
        initial_size_resize_decision(true, false, (3840, 2160), (728, 408), source).unwrap();
    assert_eq!((decision.width, decision.height), (728, 408));

    // The client echoes the applied size back; the negotiation must stop.
    let echo = initial_size_resize_decision(
        true,
        false,
        (decision.width, decision.height),
        (decision.width, decision.height),
        source,
    );
    assert_eq!(echo, None);
}

#[test]
fn physical_output_initial_size_callback_updates_presentation_state() {
    let mut display = physical_display((3840, 1080));

    let size = display.request_initial_size_with(
        DesktopSize { width: 1920, height: 1200 },
        Some((3840, 1080)),
        |_name, _width, _height| panic!("physical output must not resize headless output"),
        |name, presentation| {
            assert_eq!((name.as_str(), presentation), ("DP-1", (1920, 1200)));
            true
        },
    );

    assert_eq!(size, DesktopSize { width: 1920, height: 1200 });
    assert_eq!(told(&display), Some((1920, 1200)));
    assert_eq!(display.inner.resolution, (1920, 1200));
    assert_eq!(
        display.inner.pending_initial_resize,
        Some(DesktopSize { width: 1920, height: 1200 })
    );
}

#[test]
fn physical_output_initial_size_callback_layout_failure_preserves_state() {
    let mut display = physical_display((3840, 2160));

    let size = display.request_initial_size_with(
        DesktopSize { width: 1600, height: 900 },
        Some((3840, 2160)),
        |_name, _width, _height| panic!("physical output must not resize headless output"),
        |_name, _presentation| false,
    );

    assert_eq!(size, DesktopSize { width: 3840, height: 2160 });
    assert_eq!(told(&display), Some((3840, 2160)));
    assert_eq!(display.inner.resolution, (3840, 2160));
    assert_eq!(display.inner.pending_initial_resize, None);
}

#[test]
fn physical_output_initial_size_uses_desktop_size_policy_not_displaycontrol_layout_policy() {
    let decision =
        initial_size_resize_decision(true, false, (3840, 2160), (100, 100), Some((3840, 2160)))
            .unwrap();

    assert_eq!(decision.target, ResizeTarget::PhysicalPresentation);
    assert_eq!((decision.width, decision.height), (100, 100));
}

#[test]
fn fixed_zero_and_unchanged_initial_size_requests_are_noops() {
    assert_eq!(
        initial_size_resize_decision(true, true, (1920, 1080), (1600, 900), Some((1920, 1080))),
        None
    );
    assert_eq!(
        initial_size_resize_decision(true, false, (1920, 1080), (0, 900), Some((1920, 1080))),
        None
    );
    assert_eq!(
        initial_size_resize_decision(true, false, (1920, 1200), (1920, 1200), Some((3840, 1080))),
        None
    );
}

#[test]
fn an_unknown_source_keeps_a_physical_output_as_it_is() {
    assert_eq!(
        initial_size_resize_decision(true, false, (1920, 1080), (1600, 900), None),
        None
    );
    assert_eq!(
        display_control_resize_decision(&single_primary(1600, 900), true, false, (1920, 1080), None),
        None
    );
}

#[test]
fn physical_output_displaycontrol_accepts_single_primary_at_origin() {
    let decision = display_control_resize_decision(
        &single_primary(1280, 720),
        true,
        false,
        (1920, 1080),
        Some((1920, 1080)),
    )
    .unwrap();

    assert_eq!(decision.target, ResizeTarget::PhysicalPresentation);
    assert_eq!((decision.width, decision.height), (1280, 720));
}

#[test]
fn physical_output_displaycontrol_keeps_monitor_size_for_letterboxing() {
    let decision = display_control_resize_decision(
        &single_primary(1920, 1200),
        true,
        false,
        (3840, 1080),
        Some((3840, 1080)),
    )
    .unwrap();

    assert_eq!(decision.target, ResizeTarget::PhysicalPresentation);
    assert_eq!((decision.width, decision.height), (1920, 1200));
}

#[test]
fn physical_output_displaycontrol_callback_emits_presentation_resize() {
    let mut display = physical_display((1920, 1080));

    let update = display.request_layout_with(
        &single_primary(1280, 720),
        Some((1920, 1080)),
        |_name, _width, _height| panic!("physical output must not resize headless output"),
        |_name, _presentation| true,
    );

    assert_eq!(update, Some(DesktopSize { width: 1280, height: 720 }));
    assert_eq!(told(&display), Some((1280, 720)));
    assert_eq!(display.inner.resolution, (1280, 720));
}

#[test]
fn physical_output_displaycontrol_callback_layout_failure_emits_no_resize() {
    let mut display = physical_display((1920, 1080));

    let update = display.request_layout_with(
        &single_primary(1280, 720),
        Some((1920, 1080)),
        |_name, _width, _height| panic!("physical output must not resize headless output"),
        |_name, _presentation| false,
    );

    assert!(update.is_none());
    assert_eq!(told(&display), Some((1920, 1080)));
    assert_eq!(display.inner.resolution, (1920, 1080));
}

#[test]
fn physical_output_displaycontrol_ignores_physical_size_and_scale_fields() {
    let monitor = MonitorLayoutEntry::new_primary(1280, 720)
        .unwrap()
        .with_physical_dimensions(1000, 500)
        .unwrap()
        .with_desktop_scale_factor(150)
        .unwrap()
        .with_device_scale_factor(DeviceScaleFactor::Scale140Percent);
    let layout = DisplayControlMonitorLayout::new(&[monitor]).unwrap();

    let decision =
        display_control_resize_decision(&layout, true, false, (1920, 1080), Some((1920, 1080)))
            .unwrap();

    assert_eq!(decision.target, ResizeTarget::PhysicalPresentation);
    assert_eq!((decision.width, decision.height), (1280, 720));
}

#[test]
fn physical_output_displaycontrol_rejects_multi_monitor_layouts() {
    let monitors = [
        MonitorLayoutEntry::new_primary(1280, 720).unwrap(),
        MonitorLayoutEntry::new_secondary(1024, 768).unwrap(),
    ];
    let layout = DisplayControlMonitorLayout::new(&monitors).unwrap();

    assert_eq!(
        display_control_resize_decision(&layout, true, false, (1920, 1080), Some((1920, 1080))),
        None
    );
}

#[test]
fn physical_output_displaycontrol_rejects_valid_rotated_orientation() {
    let monitor = MonitorLayoutEntry::new_primary(1280, 720)
        .unwrap()
        .with_orientation(MonitorOrientation::Portrait);
    let layout = DisplayControlMonitorLayout::new(&[monitor]).unwrap();

    assert_eq!(
        display_control_resize_decision(&layout, true, false, (1920, 1080), Some((1920, 1080))),
        None
    );
}

#[test]
fn physical_output_displaycontrol_rejects_layouts_over_advertised_area_cap() {
    assert_eq!(
        display_control_resize_decision(
            &single_primary(8192, 2000),
            true,
            false,
            (1920, 1080),
            Some((1920, 1080))
        ),
        None
    );
}

#[test]
fn physical_output_displaycontrol_normalizes_odd_height_for_h264() {
    let decision = display_control_resize_decision(
        &single_primary(1280, 721),
        true,
        false,
        (1920, 1080),
        Some((1920, 1080)),
    )
    .unwrap();

    assert_eq!(decision.target, ResizeTarget::PhysicalPresentation);
    assert_eq!((decision.width, decision.height), (1280, 720));
}

#[test]
fn physical_output_displaycontrol_fixed_and_unchanged_requests_are_noops() {
    assert_eq!(
        display_control_resize_decision(
            &single_primary(1280, 720),
            true,
            true,
            (1920, 1080),
            Some((1920, 1080))
        ),
        None
    );
    assert_eq!(
        display_control_resize_decision(
            &single_primary(1920, 1080),
            true,
            false,
            (1920, 1080),
            Some((1920, 1080))
        ),
        None
    );
}

#[test]
fn monitors_are_judged_by_primary_position_and_orientation() {
    let upright = MonitorEntry {
        is_primary: true,
        position: Some((0, 0)),
        dimensions: (1280, 720),
        orientation: Some(0),
    };
    assert_eq!(physical_display_control_size(&[upright]), Some((1280, 720)));
    assert_eq!(
        physical_display_control_size(&[MonitorEntry { orientation: None, ..upright }]),
        Some((1280, 720))
    );
    for angle in [90, 180, 270] {
        let turned = MonitorEntry { orientation: Some(angle), ..upright };
        assert_eq!(physical_display_control_size(&[turned]), None);
        assert_eq!(headless_display_control_size(&[turned]), Some((1280, 720)));
    }
    assert_eq!(
        physical_display_control_size(&[MonitorEntry { position: None, ..upright }]),
        None
    );
    assert_eq!(
        physical_display_control_size(&[MonitorEntry { position: Some((1, 0)), ..upright }]),
        None
    );
    assert_eq!(
        physical_display_control_size(&[MonitorEntry { is_primary: false, ..upright }]),
        None
    );
    assert_eq!(
        physical_display_control_size(&[MonitorEntry { dimensions: (3840, 2400), ..upright }]),
        Some((3840, 2400))
    );
    assert_eq!(
        physical_display_control_size(&[MonitorEntry { dimensions: (3840, 2401), ..upright }]),
        None
    );
    assert_eq!(physical_display_control_size(&[]), None);
    assert_eq!(headless_display_control_size(&[]), None);
    let other = MonitorEntry { is_primary: false, dimensions: (800, 600), ..upright };
    assert_eq!(headless_display_control_size(&[other, upright]), Some((1280, 720)));
    assert_eq!(headless_display_control_size(&[other, other]), Some((800, 600)));
}

#[test]
fn managed_headless_initial_size_still_targets_headless_output_resize() {
    let decision =
        initial_size_resize_decision(false, false, (1920, 1080), (1600, 900), None).unwrap();

    assert_eq!(decision.target, ResizeTarget::ManagedHeadlessOutput);
    assert_eq!((decision.width, decision.height), (1600, 900));
}

#[test]
fn managed_headless_initial_size_callback_resizes_headless_and_updates_pending_resize() {
    let mut display = headless_display((1920, 1080));
    let mut called = None;

    let size = display.request_initial_size_with(
        DesktopSize { width: 1600, height: 900 },
        Some((1920, 1080)),
        |name, width, height| {
            called = Some((name, width, height));
            true
        },
        |_name, _presentation| true,
    );

    assert_eq!(called, Some(("HEADLESS-1".into(), 1600, 900)));
    assert_eq!(size, DesktopSize { width: 1600, height: 900 });
    assert_eq!(display.inner.resolution, (1600, 900));
    assert_eq!(
        display.inner.pending_initial_resize,
        Some(DesktopSize { width: 1600, height: 900 })
    );
    assert_eq!(display.inner.graphics, None);
    assert_eq!(
        display.take_pending_initial_resize(),
        Some(DesktopSize { width: 1600, height: 900 })
    );
    assert_eq!(display.take_pending_initial_resize(), None);
}

#[test]
fn managed_headless_displaycontrol_still_targets_headless_output_resize() {
    let decision = display_control_resize_decision(
        &single_primary(1600, 900),
        false,
        false,
        (1920, 1080),
        None,
    )
    .unwrap();

    assert_eq!(decision.target, ResizeTarget::ManagedHeadlessOutput);
    assert_eq!((decision.width, decision.height), (1600, 900));
}

#[test]
fn managed_headless_displaycontrol_callback_resizes_headless_and_emits_resize() {
    let mut display = headless_display((1920, 1080));
    let mut called = None;

    let update = display.request_layout_with(
        &single_primary(1600, 900),
        Some((1920, 1080)),
        |name, width, height| {
            called = Some((name, width, height));
            true
        },
        |_name, _presentation| true,
    );

    assert_eq!(called, Some(("HEADLESS-1".into(), 1600, 900)));
    assert_eq!(update, Some(DesktopSize { width: 1600, height: 900 }));
    assert_eq!(display.inner.resolution, (1600, 900));
}

#[test]
fn managed_headless_displaycontrol_callback_failure_preserves_state_and_emits_no_resize() {
    let mut display = headless_display((1920, 1080));

    let update = display.request_layout_with(
        &single_primary(1600, 900),
        Some((1920, 1080)),
        |_name, _width, _height| false,
        |_output_name, _presentation| {
            panic!("layout refresh must not run after headless resize failure")
        },
    );

    assert!(update.is_none());
    assert_eq!(display.inner.resolution, (1920, 1080));
    assert_eq!((display.inner.width, display.inner.height), (1920, 1080));
}

#[test]
fn managed_headless_displaycontrol_callback_layout_failure_preserves_rdp_state() {
    let mut display = headless_display((1920, 1080));
    let mut called = None;

    let update = display.request_layout_with(
        &single_primary(1600, 900),
        Some((1920, 1080)),
        |name, width, height| {
            called = Some((name, width, height));
            true
        },
        |_output_name, _presentation| false,
    );

    assert_eq!(called, Some(("HEADLESS-1".into(), 1600, 900)));
    assert!(update.is_none());
    assert_eq!(display.inner.resolution, (1920, 1080));
    assert_eq!((display.inner.width, display.inner.height), (1920, 1080));
}

#[test]
fn managed_headless_resize_side_effects_run_only_after_headless_resize_succeeds() {
    let mut inner = inner(None, "HEADLESS-1", (1920, 1080), false);
    let mut called = None;
    let decision = ResizeDecision {
        target: ResizeTarget::ManagedHeadlessOutput,
        width: 1600,
        height: 900,
    };

    let desktop_size = inner
        .apply_resize_decision_with(
            decision,
            |name, width, height| {
                called = Some((name, width, height));
                true
            },
            |_name, _presentation| true,
        )
        .expect("resize applies");

    assert_eq!(called, Some(("HEADLESS-1".into(), 1600, 900)));
    assert_eq!(desktop_size, DesktopSize { width: 1600, height: 900 });
    assert_eq!(inner.resolution, (1600, 900));
    assert_eq!((inner.width, inner.height), (1600, 900));
}

#[test]
fn managed_headless_resize_failure_preserves_existing_presentation_state() {
    let mut inner = inner(None, "HEADLESS-1", (1920, 1080), false);
    let decision = ResizeDecision {
        target: ResizeTarget::ManagedHeadlessOutput,
        width: 1600,
        height: 900,
    };

    assert!(inner
        .apply_resize_decision_with(
            decision,
            |_name, _width, _height| false,
            |_output_name, _presentation| {
                panic!("layout refresh must not run after headless resize failure")
            }
        )
        .is_none());

    assert_eq!(inner.resolution, (1920, 1080));
    assert_eq!((inner.width, inner.height), (1920, 1080));
}

#[test]
fn managed_headless_fixed_and_unchanged_resize_requests_remain_noops() {
    assert_eq!(
        initial_size_resize_decision(false, true, (1920, 1080), (1600, 900), None),
        None
    );
    assert_eq!(
        display_control_resize_decision(&single_primary(1600, 900), false, true, (1920, 1080), None),
        None
    );
    assert_eq!(
        display_control_resize_decision(
            &single_primary(1920, 1080),
            false,
            false,
            (1920, 1080),
            None
        ),
        None
    );
}

fn config(output: Option<&str>) -> DisplayConfig {
    DisplayConfig {
        resolution: (5120, 1440),
        capture_mode: CaptureMode::Wlr,
        bitrate: 1,
        quality: 2,
        rate_control: H264RateControl::Cqp,
        fps: 3,
        resolution_fixed: false,
        output: output.map(str::to_string),
    }
}

#[test]
fn a_clamped_size_keeps_its_shape_and_uses_up_a_limit() {
    assert_eq!(clamp_to_h264_software_limits(8000, 4000), (3840, 1920));
    assert_eq!(clamp_to_h264_software_limits(4000, 8000), (1920, 3840));
    assert_eq!(clamp_to_h264_software_limits(4320, 4320), (2160, 2160));
    assert_eq!(clamp_to_h264_software_limits(u32::MAX, 2), (3840, 2));
}

#[test]
fn a_resize_reaches_the_graphics_channel() {
    let mut display = physical_display((1920, 1080));
    let update = display.request_layout_with(
        &single_primary(1280, 720),
        Some((1920, 1080)),
        |_name, _width, _height| panic!("a physical output is not resized"),
        |_name, _size| true,
    );
    assert_eq!(update, Some(DesktopSize { width: 1280, height: 720 }));
    assert_eq!(
        display.inner.graphics,
        Some(GraphicsChannel {
            surface_size: Some((1280, 720)),
            resize_prepared: Some((1280, 720)),
        })
    );
}

#[test]
fn a_headless_rule_names_the_output_and_its_mode() {
    assert_eq!(
        headless_monitor_rule("HEADLESS-2", 1920, 1080),
        "HEADLESS-2,1920x1080@60,-9999x0,1"
    );
    assert_eq!(headless_monitor_rule("x", 0, 4_294_967_295), "x,0x4294967295@60,-9999x0,1");
}

#[test]
fn a_leftover_headless_output_is_reused_at_the_configured_size() {
    let mut asked = None;
    let (display, size) = HyprDisplay::new(
        config(None),
        || vec!["HEADLESS-7".to_string(), "HEADLESS-8".to_string()],
        |name, rule, size| {
            asked = Some((name, rule, size));
            ReuseOutcome::Ready
        },
        |_size| panic!("an output is there"),
        |name| Some(CaptureInfo { output_name: name, width: 3840, height: 1080 }),
        |_name, _size| true,
    )
    .expect("display starts");

    assert_eq!(
        asked,
        Some((
            "HEADLESS-7".to_string(),
            "HEADLESS-7,3840x1080@60,-9999x0,1".to_string(),
            (3840, 1080)
        ))
    );
    assert_eq!(size, (3840, 1080));
    assert_eq!(display.size(), DesktopSize { width: 3840, height: 1080 });
    assert_eq!(display.inner.output_name, "HEADLESS-7");
    assert_eq!(display.inner.resolution, (3840, 1080));
    assert_eq!(display.inner.pending_initial_resize, None);
}

#[test]
fn a_display_start_fails_with_the_step_that_failed() {
    let start = |stale: bool, reuse: ReuseOutcome, create: bool, info: bool, layout: bool| {
        HyprDisplay::new(
            config(None),
            move || if stale { vec!["H".to_string()] } else { Vec::new() },
            move |_name, _rule, _size| reuse,
            move |size| {
                assert_eq!(size, (3840, 1080));
                if create {
                    Some("NEW".to_string())
                } else {
                    None
                }
            },
            move |name| {
                if info {
                    Some(CaptureInfo { output_name: name, width: 10, height: 10 })
                } else {
                    None
                }
            },
            move |_name, _size| layout,
        )
        .map(|(display, _)| display.inner.output_name)
    };
    let ready = ReuseOutcome::Ready;
    assert_eq!(
        start(true, ReuseOutcome::NotResized, true, true, true),
        Err(DisplayError::ReuseHeadlessOutput)
    );
    assert_eq!(
        start(true, ReuseOutcome::NotReady, true, true, true),
        Err(DisplayError::ReusedOutputNotReady)
    );
    assert_eq!(start(false, ready, false, true, true), Err(DisplayError::CreateHeadlessOutput));
    assert_eq!(start(false, ready, true, false, true), Err(DisplayError::OutputInfo));
    assert_eq!(start(false, ready, true, true, false), Err(DisplayError::InitializeLayout));
    assert_eq!(start(false, ready, true, true, true), Ok("NEW".to_string()));
}

#[test]
fn display_errors_are_put_into_words() {
    for (error, words) in [
        (DisplayError::ReuseHeadlessOutput, "failed to resize reused headless output"),
        (DisplayError::ReusedOutputNotReady, "timed out"),
        (DisplayError::CreateHeadlessOutput, "timed out"),
        (DisplayError::OutputInfo, "failed to get initial output dimensions"),
        (DisplayError::InitializeLayout, "failed to initialize input layout for output"),
    ] {
        assert_eq!(error.message("timed out"), words);
    }
}

#[test]
fn scale_errors_are_put_into_words() {
    for (error, words) in [
        (ScaleError::InvalidSourceSize, "invalid source size"),
        (ScaleError::SourceSizeOverflow, "source frame size overflow"),
        (
            ScaleError::SourceTooSmall { got: 0, need: 16 },
            "source frame too small: got 0 bytes, need 16",
        ),
        (
            ScaleError::SourceStrideTooSmall { stride: 7, width: 2 },
            "source stride 7 too small for width 2",
        ),
        (ScaleError::PresentationStrideOverflow, "presentation stride overflow"),
        (ScaleError::PresentationSizeOverflow, "presentation frame size overflow"),
    ] {
        assert_eq!(error.message(), words);
    }
}

#[test]
fn a_physical_output_starts_at_its_own_size() {
    let (display, size) = HyprDisplay::new(
        config(Some("DP-1")),
        || panic!("no headless output is needed"),
        |_name, _rule, _size| panic!("no headless output is needed"),
        |_size| panic!("no headless output is needed"),
        |name| Some(CaptureInfo { output_name: name, width: 2560, height: 1441 }),
        |name, size| {
            assert_eq!((name.as_str(), size), ("DP-1", (2560, 1440)));
            true
        },
    )
    .expect("display starts");
    assert_eq!(size, (2560, 1440));
    assert_eq!(display.inner.output.as_deref(), Some("DP-1"));

    let silent = GraphicsChannel { surface_size: None, resize_prepared: None };
    assert_eq!(display.inner.graphics, Some(silent));
    let mut display = display;
    display.set_surface_size(size.0, size.1);
    assert_eq!(
        display.inner.graphics,
        Some(GraphicsChannel { surface_size: Some((2560, 1440)), ..silent })
    );
    let mut without = headless_display((1920, 1080));
    without.set_surface_size(640, 480);
    assert_eq!(without.inner.graphics, None);
}

#[test]
fn a_started_capture_sets_name_and_size() {
    let mut display = headless_display((1920, 1080));
    display.capture_started(
        CaptureInfo { output_name: "A".to_string(), width: 800, height: 600 },
        Some((640, 480)),
    );
    assert_eq!(display.inner.output_name, "A");
    assert_eq!(display.inner.resolution, (640, 480));
    assert_eq!(display.size(), DesktopSize { width: 640, height: 480 });
    display.capture_started(
        CaptureInfo { output_name: "B".to_string(), width: 800, height: 600 },
        None,
    );
    assert_eq!(display.inner.resolution, (800, 600));
}

#[test]
fn capture_modes_name_their_protocols() {
    assert_eq!(CaptureMode::Ext.protocol_name(), "ext-image-copy-capture-v1");
    assert_eq!(CaptureMode::Wlr.protocol_name(), "wlr-screencopy-v1");
}

#[test]
fn layout_negotiation_stops_at_the_applied_size() {
    for physical in [true, false] {
        let source = Some((3840, 2160));
        let decision = display_control_resize_decision(
            &single_primary(4001, 1301),
            physical,
            false,
            (1920, 1080),
            source,
        )
        .expect("the first request is applied");
        let applied = (decision.width, decision.height);
        let echo = display_control_resize_decision(
            &single_primary(applied.0, applied.1),
            physical,
            false,
            applied,
            source,
        );
        assert_eq!(echo, None);
    }
}
