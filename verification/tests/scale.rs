use std::borrow::Cow;

use hypr_rdp::capture::scale::{
    copy_scaled_visible_rect, dmabuf_zero_copy_allowed, fill_black_bars,
    output_downscaling_generation_action, prepare_presentation_frame, presentation_frame_shape,
    OutputLayoutSnapshot, PixelFormat, ScaleError,
};
use hypr_rdp::display::geometry::{PresentationGeometry, Rect, Size};

fn snapshot(source: (u32, u32), presentation: (u32, u32)) -> OutputLayoutSnapshot {
    let source_size = Size::new(source.0, source.1).unwrap();
    let presentation_size = Size::new(presentation.0, presentation.1).unwrap();
    OutputLayoutSnapshot {
        output_name: "DP-1".into(),
        output_w: source.0,
        output_h: source.1,
        layout_extent_w: source.0,
        layout_extent_h: source.1,
        output_offset_x: 0,
        output_offset_y: 0,
        presentation_geometry: PresentationGeometry::new(source_size, presentation_size),
        geometry_generation: 7,
    }
}

fn frame(width: usize, height: usize, stride: usize) -> Vec<u8> {
    let mut data = vec![0; stride * height];
    for y in 0..height {
        for x in 0..width {
            let offset = y * stride + x * 4;
            data[offset] = x as u8;
            data[offset + 1] = y as u8;
            data[offset + 2] = 0x80;
            data[offset + 3] = 0xff;
        }
    }
    data
}

#[test]
fn capture_scale_keeps_identity_frame_borrowed_and_damage_identity() {
    let source = frame(4, 2, 24);
    let prepared = prepare_presentation_frame(
        &source,
        4,
        2,
        24,
        PixelFormat::BgrA32,
        &[(1, 0, 2, 1)],
        &snapshot((4, 2), (4, 2)),
    )
    .expect("identity frame prepares");

    assert!(matches!(prepared.data, Cow::Borrowed(_)));
    assert_eq!(prepared.width, 4);
    assert_eq!(prepared.height, 2);
    assert_eq!(prepared.stride, 24);
    assert_eq!(prepared.damage_regions, vec![(1, 0, 2, 1)]);
    assert_eq!(prepared.geometry_generation, 7);
}

#[test]
fn capture_scale_maps_source_frame_to_presentation_with_fallback_bars() {
    let source = frame(4, 2, 16);
    let prepared = prepare_presentation_frame(
        &source,
        4,
        2,
        16,
        PixelFormat::BgrA32,
        &[(0, 0, 4, 2)],
        &snapshot((4, 2), (4, 4)),
    )
    .expect("scaled frame prepares");

    assert!(matches!(prepared.data, Cow::Owned(_)));
    assert_eq!(prepared.width, 4);
    assert_eq!(prepared.height, 4);
    assert_eq!(prepared.stride, 16);
    assert_eq!(&prepared.data[0..4], &[0, 0, 0, 255]);
    assert_eq!(&prepared.data[16..20], &[0, 0, 0x80, 0xff]);
    assert_eq!(&prepared.data[48..52], &[0, 0, 0, 255]);
}

#[test]
fn capture_scale_downscale_averages_covered_source_pixels() {
    // 2x1 black+white halves -> 1x1: the area filter must yield mid-gray;
    // nearest sampling would return one of the extremes.
    let mut source = vec![0u8; 8];
    source[0..4].copy_from_slice(&[0, 0, 0, 255]);
    source[4..8].copy_from_slice(&[255, 255, 255, 255]);

    let prepared = prepare_presentation_frame(
        &source,
        2,
        1,
        8,
        PixelFormat::BgrA32,
        &[(0, 0, 2, 1)],
        &snapshot((2, 1), (1, 1)),
    )
    .expect("scaled frame prepares");

    assert_eq!(&prepared.data[0..4], &[128, 128, 128, 255]);
}

#[test]
fn capture_scale_maps_damage_before_frame_processor() {
    let source = frame(4, 2, 16);
    let prepared = prepare_presentation_frame(
        &source,
        4,
        2,
        16,
        PixelFormat::BgrX32,
        &[(1, 0, 1, 1)],
        &snapshot((4, 2), (8, 4)),
    )
    .expect("scaled frame prepares");

    assert_eq!(prepared.damage_regions, vec![(2, 0, 2, 2)]);
}

#[test]
fn dmabuf_scaled_output_guard_rejects_non_identity_geometry() {
    assert!(dmabuf_zero_copy_allowed(&snapshot((1920, 1080), (1920, 1080))));
    assert!(!dmabuf_zero_copy_allowed(&snapshot((3840, 2160), (1920, 1080))));
    assert!(!dmabuf_zero_copy_allowed(&snapshot((1920, 1080), (1024, 768))));
}

#[test]
fn capture_scale_reports_presentation_frame_shape_before_frame_processor() {
    assert_eq!(
        presentation_frame_shape(3840, 2160, 3840 * 4, &snapshot((3840, 2160), (1920, 1080)))
            .expect("shape"),
        (1920, 1080, 1920 * 4)
    );
}

#[test]
fn output_downscaling_generation_forces_full_redraw_and_discards_stale_mapped_damage() {
    let source = frame(4, 2, 16);
    let prepared = prepare_presentation_frame(
        &source,
        4,
        2,
        16,
        PixelFormat::BgrX32,
        &[(1, 0, 1, 1)],
        &snapshot((4, 2), (8, 4)),
    )
    .expect("scaled frame prepares");

    assert_eq!(prepared.damage_regions, vec![(2, 0, 2, 2)]);

    let action = output_downscaling_generation_action(6, &prepared);

    assert!(action.refresh_processor);
    assert_eq!(action.next_generation, 7);
    assert_eq!(action.damage_regions, vec![(0, 0, 8, 4)]);
}

#[test]
fn output_downscaling_generation_reuses_current_generation_damage_without_incrementing() {
    let source = frame(4, 2, 16);
    let prepared = prepare_presentation_frame(
        &source,
        4,
        2,
        16,
        PixelFormat::BgrX32,
        &[(1, 0, 1, 1)],
        &snapshot((4, 2), (8, 4)),
    )
    .expect("scaled frame prepares");

    let action = output_downscaling_generation_action(7, &prepared);

    assert!(!action.refresh_processor);
    assert_eq!(action.next_generation, 7);
    assert_eq!(action.damage_regions, vec![(2, 0, 2, 2)]);
}

fn prepare(
    source: &[u8],
    size: (u32, u32),
    stride: u32,
    presentation: (u32, u32),
) -> Result<Vec<u8>, ScaleError> {
    let shown = snapshot((2, 2), presentation);
    prepare_presentation_frame(source, size.0, size.1, stride, PixelFormat::RgbX32, &[], &shown)
        .map(|prepared| prepared.data.into_owned())
}

#[test]
fn frames_that_cannot_be_prepared_say_why() {
    assert_eq!(prepare(&[0; 16], (0, 2), 8, (2, 2)), Err(ScaleError::InvalidSourceSize));
    assert_eq!(
        prepare(&[0; 16], (2, 2), u32::MAX, (2, 2)),
        Err(ScaleError::SourceSizeOverflow)
    );
    assert_eq!(
        prepare(&[0; 15], (2, 2), 8, (2, 2)),
        Err(ScaleError::SourceTooSmall { got: 15, need: 16 })
    );
    assert_eq!(
        prepare(&[0; 15], (2, 2), 8, (4, 4)),
        Err(ScaleError::SourceTooSmall { got: 15, need: 16 })
    );
    assert_eq!(
        prepare(&[0; 16], (2, 2), 7, (4, 4)),
        Err(ScaleError::SourceStrideTooSmall { stride: 7, width: 2 })
    );
    assert_eq!(
        prepare(&[0; 16], (2, 2), 8, (1 << 30, 4)),
        Err(ScaleError::PresentationStrideOverflow)
    );
    assert_eq!(
        prepare(&[0; 16], (2, 2), 8, (1 << 20, 1 << 20)),
        Err(ScaleError::PresentationSizeOverflow)
    );
    assert_eq!(
        presentation_frame_shape(0, 1, 4, &snapshot((2, 2), (2, 2))),
        Err(ScaleError::InvalidSourceSize)
    );
    assert_eq!(
        presentation_frame_shape(2, 2, 9, &snapshot((2, 2), (2, 2))),
        Ok((2, 2, 9))
    );
    assert_eq!(
        presentation_frame_shape(2, 2, 9, &snapshot((2, 2), (1 << 30, 1))),
        Err(ScaleError::PresentationStrideOverflow)
    );
}

#[test]
fn a_frame_of_another_size_than_the_layout_is_fitted_by_its_own_size() {
    // The layout was made for 2x2; a 4x2 frame fills the width of 4x4.
    let source = frame(4, 2, 16);
    let shown = prepare(&source, (4, 2), 16, (4, 4)).expect("frame prepares");
    assert_eq!(&shown[0..16], &[0; 16]);
    assert_eq!(&shown[16..32], &source[0..16]);
    assert_eq!(&shown[32..48], &source[16..32]);
    assert_eq!(&shown[48..64], &[0; 16]);
}

#[test]
fn upscaling_repeats_single_pixels() {
    let source = frame(2, 2, 8);
    let shown = prepare(&source, (2, 2), 8, (4, 4)).expect("frame prepares");
    for y in 0..4 {
        for x in 0..4 {
            let from = (y / 2) * 8 + (x / 2) * 4;
            assert_eq!(&shown[y * 16 + x * 4..y * 16 + x * 4 + 4], &source[from..from + 4]);
        }
    }
}

#[test]
fn averages_are_rounded_to_the_nearest() {
    let geometry = PresentationGeometry::new(Size::new(3, 1).unwrap(), Size::new(1, 1).unwrap());
    let source = [1, 10, 0, 255, 1, 10, 1, 255, 2, 11, 0, 255];
    let mut output = [9u8; 4];
    assert_eq!(copy_scaled_visible_rect(&source, 12, &mut output, 4, geometry), Ok(()));
    assert_eq!(output, [1, 10, 0, 255]);
}

#[test]
fn bars_are_opaque_black_in_every_format() {
    for (format, pixel) in [
        (PixelFormat::ARgb32, [255, 0, 0, 0]),
        (PixelFormat::ABgr32, [255, 0, 0, 0]),
        (PixelFormat::BgrA32, [0, 0, 0, 255]),
        (PixelFormat::RgbA32, [0, 0, 0, 255]),
        (PixelFormat::XRgb32, [0, 0, 0, 0]),
        (PixelFormat::XBgr32, [0, 0, 0, 0]),
        (PixelFormat::BgrX32, [0, 0, 0, 0]),
        (PixelFormat::RgbX32, [0, 0, 0, 0]),
    ] {
        let mut output = [7u8; 10];
        fill_black_bars(&mut output, format);
        assert_eq!(&output[0..4], &pixel);
        assert_eq!(&output[4..8], &pixel);
        assert_eq!(&output[8..10], &[7, 7]);
    }
}

#[test]
fn pictures_are_fitted_and_centred() {
    let fit = |source: (u32, u32), presentation: (u32, u32)| {
        PresentationGeometry::new(
            Size::new(source.0, source.1).unwrap(),
            Size::new(presentation.0, presentation.1).unwrap(),
        )
        .visible_rect()
    };
    assert_eq!(fit((1920, 1080), (1920, 1080)), Rect { x: 0, y: 0, width: 1920, height: 1080 });
    assert_eq!(fit((3840, 1080), (1920, 1200)), Rect { x: 0, y: 330, width: 1920, height: 540 });
    assert_eq!(fit((1080, 1920), (1920, 1080)), Rect { x: 656, y: 0, width: 607, height: 1080 });
    assert_eq!(fit((60_000, 1), (100, 100)), Rect { x: 0, y: 49, width: 100, height: 1 });
    assert_eq!(Size::new(0, 4), None);
    assert_eq!(Size::new(4, 0), None);
}

#[test]
fn damage_is_cut_to_the_source_and_covers_what_changed() {
    let geometry = PresentationGeometry::new(Size::new(10, 10).unwrap(), Size::new(4, 4).unwrap());
    assert_eq!(
        geometry.map_source_damage(&[(-3, 8, 5, 9), (10, 0, 1, 1), (0, 0, 0, 4), (3, 3, 1, 1)]),
        vec![(0, 3, 1, 1), (1, 1, 1, 1)]
    );
    let rect = geometry.visible_rect();
    assert_eq!((rect.right(), rect.bottom()), (4, 4));
    assert_eq!(geometry.source(), Size::new(10, 10).unwrap());
    assert_eq!(geometry.presentation(), Size::new(4, 4).unwrap());
}

#[test]
fn one_colour_stays_one_colour() {
    for presentation in [(3, 5), (7, 2), (20, 20), (1, 1)] {
        let source: Vec<u8> = [9u8, 200, 31, 255].repeat(5 * 4);
        let shown = snapshot((5, 4), presentation);
        let prepared =
            prepare_presentation_frame(&source, 5, 4, 20, PixelFormat::BgrA32, &[], &shown)
                .expect("frame prepares");
        let rect = shown.presentation_geometry.visible_rect();
        for y in rect.y..rect.bottom() {
            for x in rect.x..rect.right() {
                let at = (y * presentation.0 + x) as usize * 4;
                assert_eq!(&prepared.data[at..at + 4], &[9, 200, 31, 255]);
            }
        }
    }
}

#[test]
fn mapped_damage_covers_the_pixels_that_change() {
    for presentation in [(3, 3), (7, 5), (16, 12), (25, 4)] {
        for x in 0..8usize {
            for y in 0..6usize {
                let before = vec![0u8; 8 * 6 * 4];
                let mut after = before.clone();
                after[y * 32 + x * 4] = 255;
                let shown = snapshot((8, 6), presentation);
                let damage = [(x as i32, y as i32, 1, 1)];
                let frame = |data: &[u8]| {
                    let prepared = prepare_presentation_frame(
                        data,
                        8,
                        6,
                        32,
                        PixelFormat::BgrX32,
                        &damage,
                        &shown,
                    )
                    .expect("frame prepares");
                    (prepared.data.to_vec(), prepared.damage_regions)
                };
                let (old, regions) = frame(&before);
                let (new, _) = frame(&after);
                assert_eq!(regions.len(), 1);
                let (left, top, width, height) = regions[0];
                for at in (0..old.len()).filter(|&at| old[at] != new[at]) {
                    let column = (at / 4) as i32 % presentation.0 as i32;
                    let row = (at / 4) as i32 / presentation.0 as i32;
                    assert!(left <= column && column < left + width);
                    assert!(top <= row && row < top + height);
                }
            }
        }
    }
}
