use hypr_rdp::egfx::backend::{
    Avc444Encoder, EgfxFrameCodec, EncodedEgfxFrame, FrameEncoder, FrameError,
};
use hypr_rdp::egfx::bits::BitWriter;
use hypr_rdp::egfx::device::{
    can_encode_slices, find_vaapi_device, render_nodes, select_h264_profile, DeviceDirectory,
    DeviceError, H264Profile,
};
use hypr_rdp::egfx::h264::extract_sps_pps;
use hypr_rdp::egfx::headers::{parameter_sets, slice_header, StreamHeader};
use hypr_rdp::egfx::nv12::{bgra_to_nv12, BgraShape, Nv12Layout};
use hypr_rdp::egfx::policy::{encoder_policy, set_encoder_policy, EncoderPolicy};
use hypr_rdp::egfx::rate_control::{
    vaapi_rate_control_policy, H264RateControl, H264_DEFAULT_PIC_INIT_QP, VA_RC_CQP, VA_RC_VBR,
};
use hypr_rdp::egfx::reference::{
    DpbEntry, VaapiAvc444Subframe, VaapiEncodeRole, VaapiReferenceMode, VaapiReferenceState,
};
use hypr_rdp::egfx::vaapi::{
    fourcc, h264_pic_fields_value, h264_seq_fields_value, h264_vui_fields_value, picture_h264,
    DmabufFrame, DriverReport, EncodeStage, EncoderSettings, FramePlan, SetupStep, SubmitOutcome,
    VaapiEncoder, VaapiError, FOURCC_NV12,
};

fn settings() -> EncoderSettings {
    EncoderSettings {
        width: 64,
        height: 64,
        bitrate: 1_000_000,
        fps: 30,
        quality: 23,
        rate_control: H264RateControl::Cqp,
    }
}

fn report() -> DriverReport {
    DriverReport {
        device: Ok(()),
        opened: true,
        profiles: Some(vec![6, 7]),
        entrypoints: Some(vec![1, 6]),
        configured: true,
        packed_headers: None,
        input_surfaces: Some(vec![10, 11, 12]),
        recon_surfaces: Some(vec![20, 21]),
        context_created: true,
        image_formats: Some(vec![1, FOURCC_NV12]),
        coded_buffers: vec![30, 31, 32],
    }
}

#[test]
fn software_policy_never_selects_vaapi() {
    let encoder = FrameEncoder::new_with_policy(
        EncoderPolicy::Software,
        settings(),
        |_settings| panic!("VA-API must not be tried"),
        |settings| settings.width == 64,
    )
    .ok()
    .expect("software encoder initializes");

    assert_eq!(encoder.backend_name(), "ffmpeg-h264");
    assert!(!encoder.is_vaapi());
}

#[test]
fn avc444_software_backend_reports_ffmpeg_and_not_vaapi() {
    let encoder = FrameEncoder::new_avc444_software_only(settings(), |_settings| true)
        .ok()
        .expect("software AVC444 encoder initializes");

    assert_eq!(encoder.backend_name(), "ffmpeg-avc444");
    assert!(!encoder.is_vaapi());
}

#[test]
fn the_policy_decides_what_is_opened() {
    let open = |policy, hardware: bool, software: bool| {
        FrameEncoder::new_with_policy(
            policy,
            settings(),
            move |settings| {
                if hardware {
                    VaapiEncoder::new(settings, report())
                } else {
                    Err(VaapiError::ProfileNotSupported)
                }
            },
            move |_settings| software,
        )
        .map(|encoder| encoder.backend_name())
    };
    assert_eq!(open(EncoderPolicy::Auto, true, true), Ok("vaapi"));
    assert_eq!(open(EncoderPolicy::Auto, false, true), Ok("ffmpeg-h264"));
    assert_eq!(open(EncoderPolicy::Auto, false, false), Err(FrameError::SoftwareInit));
    assert_eq!(open(EncoderPolicy::Vaapi, true, true), Ok("vaapi"));
    assert_eq!(
        open(EncoderPolicy::Vaapi, false, true),
        Err(FrameError::VaapiRequired(VaapiError::ProfileNotSupported))
    );
    assert_eq!(open(EncoderPolicy::Software, true, true), Ok("ffmpeg-h264"));
}

#[test]
fn the_policy_decides_what_is_opened_for_avc444() {
    let open = |policy, hardware: bool, software: bool| {
        let encoder = FrameEncoder::new_avc444(
            &Some(policy),
            settings(),
            move |_settings| if hardware { Some("hardware-avc444") } else { None },
            move |_settings| software,
        );
        encoder.map(|encoder| (encoder.backend_name(), encoder.is_vaapi()))
    };
    assert_eq!(open(EncoderPolicy::Auto, true, true), Ok(("hardware-avc444", true)));
    assert_eq!(open(EncoderPolicy::Auto, false, true), Ok(("ffmpeg-avc444", false)));
    assert_eq!(open(EncoderPolicy::Vaapi, false, true), Err(FrameError::VaapiAvc444Required));
    assert_eq!(open(EncoderPolicy::Software, true, true), Ok(("ffmpeg-avc444", false)));
    assert_eq!(open(EncoderPolicy::Software, true, false), Err(FrameError::Avc444Init));
}

#[test]
fn the_first_policy_stays() {
    let mut slot = None;
    assert_eq!(encoder_policy(&slot), EncoderPolicy::Auto);
    set_encoder_policy(&mut slot, EncoderPolicy::Vaapi);
    set_encoder_policy(&mut slot, EncoderPolicy::Software);
    assert_eq!(encoder_policy(&slot), EncoderPolicy::Vaapi);
    assert_eq!(EncoderPolicy::default(), EncoderPolicy::Auto);
}

fn no_submit(_plan: FramePlan) -> SubmitOutcome {
    panic!("no hardware frame is encoded")
}

fn no_frame(_forced: bool) -> Option<Vec<u8>> {
    panic!("no software frame is encoded")
}

#[test]
fn encoders_refuse_frames_of_the_other_kind() {
    let mut plain = FrameEncoder::new_software_only(settings(), |_| true).ok().unwrap();
    let mut avc444 = FrameEncoder::new_avc444_software_only(settings(), |_| true).ok().unwrap();
    let mut hardware = FrameEncoder::Vaapi(VaapiEncoder::new(settings(), report()).ok().unwrap());
    assert_eq!(avc444.encode(no_submit, no_frame), Err(FrameError::RequiresEncodeAvc444));
    assert_eq!(plain.encode_avc444(no_frame), Err(FrameError::RequiresAvc444Encoder));
    assert_eq!(hardware.encode_avc444(no_frame), Err(FrameError::RequiresSoftwareEncoder));
    let frame = DmabufFrame {
        fd: 3,
        width: 64,
        height: 64,
        stride: 64,
        offset: 0,
        modifier: 0,
        uv_stride: 64,
        uv_offset: 4096,
    };
    assert_eq!(
        plain.encode_dmabuf(frame, |_| panic!("nothing is imported"), no_submit),
        Err(FrameError::RequiresVaapi)
    );
    assert_eq!(
        avc444.encode_dmabuf(frame, |_| panic!("nothing is imported"), no_submit),
        Err(FrameError::RequiresVaapi)
    );
    let mut committed = false;
    plain.commit_avc444_reference(|| panic!("nothing to keep"));
    avc444.commit_avc444_reference(|| committed = true);
    assert!(committed);
}

#[test]
fn a_forced_sequence_lasts_until_a_frame_is_coded() {
    let mut encoder = FrameEncoder::new_software_only(settings(), |_| true).ok().unwrap();
    encoder.force_idr();
    assert_eq!(
        encoder.encode(no_submit, |forced| {
            assert!(forced);
            None
        }),
        Err(FrameError::SoftwareEncode)
    );
    assert_eq!(
        encoder.encode(no_submit, |forced| {
            assert!(forced);
            Some(vec![1])
        }),
        Ok(vec![1])
    );
    assert_eq!(
        encoder.encode(no_submit, |forced| {
            assert!(!forced);
            Some(vec![2])
        }),
        Ok(vec![2])
    );
    let mut avc444 = FrameEncoder::new_avc444_software_only(settings(), |_| true).ok().unwrap();
    avc444.force_idr();
    assert_eq!(avc444.encode_avc444(|_| None::<u8>), Err(FrameError::Avc444Encode));
    assert_eq!(avc444.encode_avc444(|forced| Some(forced)), Ok(true));
    assert_eq!(avc444.encode_avc444(|forced| Some(forced)), Ok(false));
}

#[test]
fn frames_are_encoded_with_the_codec_that_is_asked_for() {
    let mut plain = FrameEncoder::new_software_only_for_egfx_codec(
        EgfxFrameCodec::Avc420,
        settings(),
        |_| true,
        |_| panic!("no AVC444 encoder is opened"),
    )
    .ok()
    .unwrap();
    assert_eq!(
        plain.encode_egfx_frame(EgfxFrameCodec::Avc420, no_submit, |_| Some(vec![1]), |_| {
            panic!("no AVC444 frame is encoded")
        }),
        Ok(EncodedEgfxFrame::<u8>::Avc420(vec![1]))
    );
    assert_eq!(
        plain.encode_egfx_frame(EgfxFrameCodec::Avc444, no_submit, no_frame, |_| Some(1u8)),
        Err(FrameError::RequiresAvc444Encoder)
    );
    let mut avc444 = FrameEncoder::new_for_egfx_codec(
        EgfxFrameCodec::Avc444,
        &None,
        settings(),
        |_| panic!("no plain encoder is opened"),
        |_| panic!("no plain encoder is opened"),
        |_| None,
        |_| true,
    )
    .ok()
    .unwrap();
    assert_eq!(
        avc444.encode_egfx_frame(EgfxFrameCodec::Avc444, no_submit, no_frame, |_| Some(5u8)),
        Ok(EncodedEgfxFrame::Avc444(5))
    );
    assert!(!Avc444Encoder::software(settings()).vaapi);
    assert!(Avc444Encoder::with_vaapi(settings(), "n").vaapi);
}

fn dpb(surface_id: u32, frame_num: u16, poc: i32) -> DpbEntry {
    DpbEntry {
        surface_id,
        frame_num,
        poc,
    }
}

#[test]
fn vaapi_avc444_reference_state_uses_single_h264_sequence_reference() {
    let mut references = VaapiReferenceState::default();
    let luma_0 = dpb(10, 0, 0);
    let chroma_1 = dpb(11, 1, 2);

    references.record(VaapiEncodeRole::Avc444(VaapiAvc444Subframe::Luma), luma_0);
    assert_eq!(
        references.primary_reference(VaapiEncodeRole::Avc444(VaapiAvc444Subframe::Chroma)),
        Some(luma_0),
        "the first chroma subframe after an IDR luma frame must continue the same H.264 sequence"
    );

    references.record(VaapiEncodeRole::Avc444(VaapiAvc444Subframe::Chroma), chroma_1);

    assert_eq!(
        references.primary_reference(VaapiEncodeRole::Avc444(VaapiAvc444Subframe::Luma)),
        Some(chroma_1),
        "the next luma subframe must use the immediately preceding chroma subframe as the single H.264 sequence reference"
    );
    assert_eq!(
        references.primary_reference(VaapiEncodeRole::Avc444(VaapiAvc444Subframe::Chroma)),
        Some(chroma_1),
        "the next chroma subframe must also use the immediately preceding H.264 sequence reference"
    );

    let luma_refs = references.reference_frames(
        VaapiReferenceMode::Avc444Subframes,
        VaapiEncodeRole::Avc444(VaapiAvc444Subframe::Luma),
    );
    assert_eq!(luma_refs, vec![chroma_1]);
    references.clear();
    assert_eq!(references, VaapiReferenceState::default());
}

#[test]
fn vaapi_avc444_reference_mode_matches_single_h264_sequence() {
    assert_eq!(VaapiReferenceMode::Single.max_num_ref_frames(), 1);
    assert_eq!(VaapiReferenceMode::Avc444Subframes.max_num_ref_frames(), 1);
    assert!(VaapiReferenceMode::Single.uses_periodic_idr());
    assert!(
        !VaapiReferenceMode::Avc444Subframes.uses_periodic_idr(),
        "AVC444 must not inject fixed IDR at subframe cadence"
    );
}

#[test]
fn vaapi_avc444_recon_pool_keeps_current_surface_outside_single_ref() {
    assert_eq!(VaapiReferenceMode::Single.recon_surface_pool_size(), 2);
    assert_eq!(
        VaapiReferenceMode::Avc444Subframes.recon_surface_pool_size(),
        2
    );

    let pool_size = VaapiReferenceMode::Avc444Subframes.recon_surface_pool_size();
    let previous_recon = 0;
    let next_recon = 1 % pool_size;

    assert_ne!(
        next_recon, previous_recon,
        "next CurrPic must not reuse the single active reference surface"
    );
}

#[test]
fn vaapi_vbr_policy_uses_configured_bitrate_without_qp_controls() {
    let policy = vaapi_rate_control_policy(10_000_000, 23, H264RateControl::Vbr);

    assert_eq!(policy.config_mode, VA_RC_VBR);
    assert_eq!(policy.bits_per_second, 10_000_000);
    assert_eq!(policy.pic_init_qp, H264_DEFAULT_PIC_INIT_QP);
    assert_eq!(policy.initial_qp, 0);
    assert_eq!(policy.min_qp, 0);
    assert_eq!(policy.target_percentage, 100);
    assert_eq!(policy.rc_flags, 0);
    assert_eq!(policy.max_qp, 0);
}

#[test]
fn vaapi_cqp_policy_pins_qp_and_disables_bitrate_target() {
    let policy = vaapi_rate_control_policy(10_000_000, 32, H264RateControl::Cqp);

    assert_eq!(policy.config_mode, VA_RC_CQP);
    assert_eq!(policy.bits_per_second, 0);
    assert_eq!(policy.pic_init_qp, 32);
    assert_eq!(policy.initial_qp, 32);
    assert_eq!(policy.min_qp, 32);
    assert_eq!(policy.rc_flags, 1 << 1);
    assert_eq!(policy.max_qp, 32);
}

#[test]
fn vaapi_quality_is_clamped_to_h264_qp_range() {
    let policy = vaapi_rate_control_policy(10_000_000, 99, H264RateControl::Cqp);

    assert_eq!(policy.pic_init_qp, 51);
    assert_eq!(policy.initial_qp, 51);
    assert_eq!(policy.min_qp, 51);
    assert_eq!(policy.max_qp, 51);
}

#[test]
fn an_encoder_is_set_up_or_the_obstacle_named() {
    let fails = |settings: EncoderSettings, change: fn(&mut DriverReport)| {
        let mut report = report();
        change(&mut report);
        VaapiEncoder::new(settings, report).err()
    };
    assert_eq!(fails(settings(), |_| {}), None);
    for (width, height) in [(0, 2), (2, 0), (3, 2), (2, 3)] {
        assert_eq!(
            fails(EncoderSettings { width, height, ..settings() }, |r| r.opened = false),
            Some(VaapiError::InvalidDimensions { width, height })
        );
    }
    let setup = |step| Some(VaapiError::Setup(step));
    assert_eq!(
        fails(settings(), |r| {
            r.device = Err(DeviceError::NoEncodeSupport { checked: 2 });
            r.opened = false;
        }),
        Some(VaapiError::Device(DeviceError::NoEncodeSupport { checked: 2 }))
    );
    assert_eq!(fails(settings(), |r| r.opened = false), setup(SetupStep::OpenDisplay));
    assert_eq!(fails(settings(), |r| r.profiles = None), setup(SetupStep::QueryProfiles));
    assert_eq!(
        fails(settings(), |r| r.profiles = Some(vec![1])),
        Some(VaapiError::ProfileNotSupported)
    );
    assert_eq!(fails(settings(), |r| r.entrypoints = None), setup(SetupStep::QueryEntrypoints));
    assert_eq!(
        fails(settings(), |r| r.entrypoints = Some(vec![])),
        Some(VaapiError::EntrypointNotSupported)
    );
    assert_eq!(fails(settings(), |r| r.configured = false), setup(SetupStep::CreateConfig));
    assert_eq!(
        fails(settings(), |r| r.input_surfaces = None),
        setup(SetupStep::CreateInputSurfaces)
    );
    assert_eq!(
        fails(settings(), |r| r.recon_surfaces = None),
        setup(SetupStep::CreateReconSurfaces)
    );
    assert_eq!(fails(settings(), |r| r.context_created = false), setup(SetupStep::CreateContext));
    assert_eq!(fails(settings(), |r| r.image_formats = None), setup(SetupStep::QueryImageFormats));
    assert_eq!(
        fails(settings(), |r| r.image_formats = Some(vec![1])),
        Some(VaapiError::Nv12NotSupported)
    );
    assert_eq!(
        fails(settings(), |r| r.coded_buffers.truncate(2)),
        setup(SetupStep::CreateCodedBuffer(2))
    );
    assert_eq!(
        fails(settings(), |r| r.coded_buffers.clear()),
        setup(SetupStep::CreateCodedBuffer(0))
    );
}

#[test]
fn packed_headers_are_written_where_the_driver_asks_for_them() {
    for (packed, sequence, slice) in [
        (None, false, false),
        (Some(0x8000_0000), false, false),
        (Some(0), false, false),
        (Some(1), true, false),
        (Some(4), false, true),
        (Some(0x8000_0005), true, true),
    ] {
        let encoder =
            VaapiEncoder::new(settings(), DriverReport { packed_headers: packed, ..report() })
                .ok()
                .unwrap();
        assert_eq!(encoder.packed_sequence_required, sequence);
        assert_eq!(encoder.packed_slice_required, slice);
    }
    assert_eq!(settings().coded_buffer_size(), 64 * 64 * 3 / 2);
}

#[test]
fn frames_follow_one_another_in_the_stream() {
    let mut encoder = VaapiEncoder::new(
        settings(),
        DriverReport { packed_headers: Some(5), ..report() },
    )
    .ok()
    .unwrap();
    let sets = encoder.generate_sps_pps();
    for count in 0u32..65 {
        let idr = count % 30 == 0;
        let data = vec![count as u8; 3];
        let coded = data.clone();
        let sets_seen = sets.clone();
        let r = encoder.encode(move |plan| {
            assert_eq!(plan.is_idr, idr);
            assert_eq!(plan.input_surface, 10 + count % 3);
            assert_eq!(plan.coded_buffer, 30 + count % 3);
            assert_eq!(plan.picture.curr_pic.picture_id, 20 + count % 2);
            assert_eq!(u32::from(plan.frame_num), count);
            assert_eq!(plan.poc, (2 * count % 256) as i32);
            assert_eq!(plan.sequence.is_some(), idr);
            assert_eq!(plan.rate_control.is_some(), idr);
            assert_eq!(plan.packed_sequence, if idr { Some(sets_seen) } else { None });
            assert!(plan.packed_slice.is_some());
            assert_eq!(plan.slice.slice_type, if idr { 2 } else { 0 });
            assert_eq!(plan.slice.num_macroblocks, 16);
            let first = plan.slice.ref_pic_list_0[0];
            assert_eq!(plan.picture.reference_frames[0], first);
            assert_eq!(plan.picture.reference_frames.len(), 16);
            assert_eq!(plan.slice.ref_pic_list_0.len(), 32);
            if idr {
                assert_eq!(first, picture_h264(0xffff_ffff, 0, 1, 0, 0));
            } else {
                let poc = (2 * (count - 1) % 256) as i32;
                assert_eq!(first, picture_h264(20 + (count - 1) % 2, count - 1, 8, poc, poc));
            }
            SubmitOutcome::Coded(coded)
        });
        let mut expected = sets.clone();
        expected.extend_from_slice(&data);
        assert_eq!(r, Ok(expected));
    }
    assert_eq!(encoder.frame_count, 65);
    assert_eq!(encoder.idr_pic_id, 3);
}

#[test]
fn parameter_sets_of_the_driver_are_kept() {
    let mut encoder = VaapiEncoder::new(settings(), report()).ok().unwrap();
    let idr = vec![0, 0, 1, 0x67, 1, 2, 0, 0, 0, 1, 0x68, 3, 0, 0, 1, 0x65, 9];
    let sets = vec![0, 0, 0, 1, 0x67, 1, 2, 0, 0, 0, 1, 0x68, 3];
    let coded = idr.clone();
    assert_eq!(encoder.encode(move |_| SubmitOutcome::Coded(coded)), Ok(idr));
    assert_eq!(encoder.cached_sps_pps, Some(sets.clone()));
    let mut expected = sets;
    expected.push(7);
    assert_eq!(encoder.encode(|_| SubmitOutcome::Coded(vec![7])), Ok(expected));
}

#[test]
fn failed_frames_leave_the_sequence_where_it_was() {
    for stage in [
        EncodeStage::Upload,
        EncodeStage::SequenceBuffer,
        EncodeStage::RateControlBuffer,
        EncodeStage::HrdBuffer,
        EncodeStage::FrameRateBuffer,
        EncodeStage::PackedSequenceParam,
        EncodeStage::PackedSequenceData,
        EncodeStage::PictureBuffer,
        EncodeStage::SliceBuffer,
        EncodeStage::PackedSliceParam,
        EncodeStage::PackedSliceData,
        EncodeStage::Render,
        EncodeStage::ReadCoded,
    ] {
        let mut encoder = VaapiEncoder::new(
            settings(),
            DriverReport { packed_headers: Some(5), ..report() },
        )
        .ok()
        .unwrap();
        encoder.encode(|_| SubmitOutcome::Coded(vec![1])).unwrap();
        encoder.force_idr();
        let before = encoder.references;
        assert_eq!(
            encoder.encode(move |_| SubmitOutcome::Failed(stage)),
            Err(VaapiError::Encode(stage))
        );
        assert_eq!(encoder.frame_count, 1);
        assert!(encoder.is_idr_frame());
        assert_eq!(encoder.current_recon_surface, 0);
        match stage {
            EncodeStage::Upload => assert_eq!(encoder.references, before),
            EncodeStage::ReadCoded => assert_eq!(encoder.references.last, Some(dpb(21, 1, 2))),
            _ => assert_eq!(encoder.references.last, None),
        }
        let numbered = matches!(
            stage,
            EncodeStage::PackedSliceParam
                | EncodeStage::PackedSliceData
                | EncodeStage::Render
                | EncodeStage::ReadCoded
        );
        assert_eq!(encoder.idr_pic_id, if numbered { 2 } else { 1 });
    }
}

#[test]
fn a_buffer_of_another_device_is_imported_once() {
    let mut encoder = VaapiEncoder::new(settings(), report()).ok().unwrap();
    let frame = DmabufFrame {
        fd: 3,
        width: 64,
        height: 64,
        stride: 80,
        offset: 16,
        modifier: 5,
        uv_stride: 96,
        uv_offset: 4096,
    };
    assert_eq!(
        encoder.encode_dmabuf(frame, |_| None, no_submit),
        Err(VaapiError::ImportFailed)
    );
    assert_eq!(encoder.current_recon_surface, 0);
    let r = encoder.encode_dmabuf(
        frame,
        |prime| {
            assert_eq!(prime.size, 4096 + 32 * 96);
            assert_eq!(prime.fourcc, FOURCC_NV12);
            assert_eq!((prime.y_offset, prime.y_pitch), (16, 80));
            assert_eq!((prime.uv_offset, prime.uv_pitch), (4096, 96));
            assert_eq!((prime.fd, prime.modifier), (3, 5));
            Some(77)
        },
        |plan| {
            assert_eq!(plan.input_surface, 77);
            SubmitOutcome::Coded(vec![1])
        },
    );
    assert!(r.is_ok());
    assert_eq!(encoder.current_input_surface, 0);
    assert_eq!(encoder.current_recon_surface, 1);
    let again = encoder.encode_dmabuf(
        frame,
        |_| panic!("the surface is known"),
        |plan| {
            assert_eq!(plan.input_surface, 77);
            SubmitOutcome::Coded(vec![2])
        },
    );
    assert!(again.is_ok());
}

#[test]
fn levels_follow_the_macroblock_rate() {
    let level = |width, height, fps| {
        EncoderSettings { width, height, fps, ..settings() }.get_h264_level()
    };
    assert_eq!(level(640, 480, 30), 30);
    assert_eq!(level(720, 480, 30), 30);
    assert_eq!(level(1280, 720, 30), 31);
    assert_eq!(level(1920, 1080, 30), 40);
    assert_eq!(level(1920, 1088, 60), 41);
    assert_eq!(level(3840, 2160, 30), 50);
    assert_eq!(level(3840, 2160, 60), 51);
    assert_eq!(level(3840, 2160, 0), 30);
}

#[test]
fn driver_flags_are_packed_as_the_driver_reads_them() {
    assert_eq!(
        h264_seq_fields_value(),
        1 | (1 << 2) | (1 << 5) | (4 << 6) | (4 << 12)
    );
    assert_eq!(
        h264_vui_fields_value(),
        (1 << 1) | (1 << 2) | (16 << 3) | (16 << 8) | (1 << 15)
    );
    assert_eq!(
        h264_pic_fields_value(true, true),
        1 | (1 << 1) | (1 << 3) | (1 << 8) | (1 << 9)
    );
    assert_eq!(h264_pic_fields_value(false, false), (1 << 1) | (1 << 3) | (1 << 9));
    assert_eq!(fourcc(b"NV12"), u32::from_le_bytes(*b"NV12"));
    assert_eq!(fourcc(b"NV12"), FOURCC_NV12);
}

#[test]
fn exp_golomb_codes_are_those_of_the_standard() {
    let ue = |value| {
        let mut bs = BitWriter::new();
        bs.write_ue(value);
        let bits = bs.data.len() * 8 + bs.bits_in_byte as usize;
        (bits, bs.finish_with_emulation_prevention())
    };
    assert_eq!(ue(0), (1, vec![0x80]));
    assert_eq!(ue(1), (3, vec![0x40]));
    assert_eq!(ue(2), (3, vec![0x60]));
    assert_eq!(ue(3), (5, vec![0x20]));
    assert_eq!(ue(6), (5, vec![0x38]));
    assert_eq!(ue(7), (7, vec![0x10]));
    assert_eq!(ue(255), (17, vec![0x00, 0x80, 0x00]));
    assert_eq!(ue(u32::MAX - 1).0, 63);
    let se = |value| {
        let mut bs = BitWriter::new();
        bs.write_se(value);
        bs.finish_with_emulation_prevention()
    };
    assert_eq!(se(0), vec![0x80]);
    assert_eq!(se(1), vec![0x40]);
    assert_eq!(se(-1), vec![0x60]);
    assert_eq!(se(2), vec![0x20]);
    assert_eq!(se(-2), vec![0x28]);
}

#[test]
fn emulation_prevention_guards_zero_runs() {
    let guarded = |bytes: &[u8]| {
        let mut bs = BitWriter::new();
        for &byte in bytes {
            bs.write_bits(u32::from(byte), 8);
        }
        bs.finish_with_emulation_prevention()
    };
    assert_eq!(guarded(&[0, 0, 1]), vec![0, 0, 3, 1]);
    assert_eq!(guarded(&[0, 0, 3]), vec![0, 0, 3, 3]);
    assert_eq!(guarded(&[0, 0, 4]), vec![0, 0, 4]);
    assert_eq!(guarded(&[0, 0, 0, 0, 0]), vec![0, 0, 3, 0, 0, 3, 0]);
    let mut bs = BitWriter::new();
    bs.write_bits(0x1ff, 9);
    bs.write_rbsp_trailing_bits();
    assert_eq!(bs.finish_with_emulation_prevention(), vec![0xff, 0xc0]);
}

#[test]
fn parameter_sets_are_written_byte_for_byte() {
    let h = StreamHeader {
        high_profile: true,
        level_idc: 40,
        width: 1920,
        height: 1080,
        fps: 30,
        max_num_ref_frames: 1,
        pic_init_qp: 26,
    };
    let sets = parameter_sets(&h);
    assert_eq!(&sets[..9], &[0, 0, 0, 1, 0x67, 100, 0, 40, 0xac]);
    assert_eq!(extract_sps_pps(&sets), Some(sets.clone()));
    let pps = [0, 0, 0, 1, 0x68, 0xee, 0x3c, 0xb0];
    assert_eq!(&sets[sets.len() - 8..], &pps);
    let main = parameter_sets(&StreamHeader { high_profile: false, ..h });
    assert_eq!(&main[4..8], &[0x67, 77, 0, 40]);
    assert_eq!(&main[main.len() - 8..], &[0, 0, 0, 1, 0x68, 0xee, 0x3c, 0x30]);
    assert_eq!(
        slice_header(true, 0, 1, 0),
        vec![0, 0, 0, 1, 0x65, 0x88, 0x80, 0x20, 0x03, 0xc0]
    );
}

#[test]
fn parameter_sets_are_found_only_as_a_pair() {
    assert_eq!(extract_sps_pps(&[]), None);
    assert_eq!(extract_sps_pps(&[0, 0, 1, 0x67, 1]), None);
    assert_eq!(extract_sps_pps(&[0, 0, 1, 0x68, 1]), None);
    assert_eq!(extract_sps_pps(&[0x67, 0x68]), None);
    assert_eq!(
        extract_sps_pps(&[9, 0, 0, 1, 0x68, 1, 0, 0, 1, 0x06, 5, 0, 0, 0, 1, 0x27]),
        Some(vec![0, 0, 0, 1, 0x68, 1, 0, 0, 0, 1, 0x27])
    );
}

#[test]
fn colours_become_luma_and_chroma() {
    let pixel = |b: u8, g: u8, r: u8| [b, g, r, 255];
    let mut picture = Vec::new();
    for _ in 0..2 {
        picture.extend_from_slice(&pixel(0, 0, 255));
        picture.extend_from_slice(&pixel(0, 0, 255));
        picture.extend_from_slice(&[0xaa; 4]);
    }
    let mut image = [1u8; 14];
    let layout = Nv12Layout { y_offset: 1, y_pitch: 4, uv_offset: 10, uv_pitch: 4 };
    let shape = BgraShape { width: 2, height: 2, stride: 12 };
    bgra_to_nv12(&picture, &mut image, shape, layout);
    assert_eq!(image, [1, 53, 53, 1, 1, 53, 53, 1, 1, 1, 99, 255, 1, 1]);

    let white = [255u8; 16];
    let shape = BgraShape { width: 2, height: 2, stride: 8 };
    let layout = Nv12Layout { y_offset: 0, y_pitch: 2, uv_offset: 4, uv_pitch: 2 };
    let mut image = [0u8; 6];
    bgra_to_nv12(&white, &mut image, shape, layout);
    assert_eq!(image, [254, 254, 254, 254, 128, 128]);
    bgra_to_nv12(&[0u8; 15], &mut image, shape, layout);
    assert_eq!(image, [254, 254, 254, 254, 128, 128]);
    bgra_to_nv12(&[255, 0, 0, 0].repeat(4), &mut image, shape, layout);
    assert_eq!(image, [17, 17, 17, 17, 255, 116]);
    bgra_to_nv12(&[0, 255, 0, 0].repeat(4), &mut image, shape, layout);
    assert_eq!(image, [182, 182, 182, 182, 29, 12]);
}

#[test]
fn the_best_device_is_the_first_that_encodes() {
    let profiles = [None, Some(vec![5]), Some(vec![6]), Some(vec![7, 6]), Some(vec![7])];
    let found = find_vaapi_device(
        profiles.len(),
        |i| profiles[i].clone(),
        |i, profile| {
            assert_eq!(profile, if i == 2 { 6 } else { 7 });
            match i {
                2 => None,
                3 => Some(vec![1, 2]),
                _ => Some(vec![6]),
            }
        },
    );
    assert_eq!(found, Ok(4));
    assert_eq!(
        find_vaapi_device(2, |_| Some(vec![7]), |_, _| Some(vec![])),
        Err(DeviceError::NoEncodeSupport { checked: 2 })
    );
    assert_eq!(
        find_vaapi_device(0, |_| panic!("no device"), |_, _| panic!("no device")),
        Err(DeviceError::NoRenderDevices)
    );
    assert_eq!(select_h264_profile(&[6, 7]), Some(H264Profile::High));
    assert_eq!(select_h264_profile(&[6]), Some(H264Profile::Main));
    assert_eq!(select_h264_profile(&[]), None);
    assert_eq!(H264Profile::High.va_profile(), 7);
    assert!(can_encode_slices(&[1, 6]));
    assert!(!can_encode_slices(&[7]));
}

#[test]
fn render_nodes_are_sorted_by_name() {
    let entries = ["renderD130", "card0", "renderD128", "renderD13", "xrenderD1", "renderD"];
    let nodes = render_nodes(DeviceDirectory::Entries(
        entries.iter().map(|s| s.to_string()).collect(),
    ));
    let expected = ["renderD", "renderD128", "renderD13", "renderD130"];
    assert_eq!(nodes, Ok(expected.map(str::to_string).to_vec()));
    assert_eq!(render_nodes(DeviceDirectory::Missing), Err(DeviceError::NoDirectory));
    assert_eq!(
        render_nodes(DeviceDirectory::Unreadable),
        Err(DeviceError::UnreadableDirectory)
    );
}

#[test]
fn a_picture_from_another_device_fails_to_render_in_its_own_way() {
    let frame = DmabufFrame {
        fd: 3,
        width: 64,
        height: 64,
        stride: 64,
        offset: 0,
        modifier: 0,
        uv_stride: 64,
        uv_offset: 4096,
    };
    let fails = |stage: EncodeStage| {
        let mut encoder = VaapiEncoder::new(settings(), report()).ok().unwrap();
        encoder.encode_dmabuf(frame, |_| Some(77), move |_| SubmitOutcome::Failed(stage))
    };
    assert_eq!(fails(EncodeStage::Render), Err(VaapiError::RenderImported));
    assert_eq!(
        fails(EncodeStage::ReadCoded),
        Err(VaapiError::Encode(EncodeStage::ReadCoded))
    );
}

#[test]
fn encoder_errors_are_put_into_words() {
    for (error, words) in [
        (
            VaapiError::InvalidDimensions { width: 0, height: 721 },
            "dimensions must be non-zero and even: 0x721",
        ),
        (VaapiError::Device(DeviceError::NoDirectory), "/dev/dri not found"),
        (VaapiError::Device(DeviceError::UnreadableDirectory), "failed to read /dev/dri"),
        (
            VaapiError::Device(DeviceError::NoRenderDevices),
            "no render devices found in /dev/dri",
        ),
        (
            VaapiError::Device(DeviceError::NoEncodeSupport { checked: 12 }),
            "no VA-API device with H.264 encode support found (checked 12 devices)",
        ),
        (VaapiError::ProfileNotSupported, "H.264 encode not supported by VA-API driver"),
        (VaapiError::EntrypointNotSupported, "H.264 encode entrypoint not supported"),
        (VaapiError::Nv12NotSupported, "NV12 format not supported"),
        (VaapiError::ImportFailed, "Failed to import NV12 DMA-BUF surface: gone"),
        (VaapiError::RenderImported, "VA-API render failed (dmabuf): gone"),
    ] {
        assert_eq!(error.message("gone"), words);
    }
    for (step, words) in [
        (SetupStep::OpenDisplay, "Failed to open VA display: gone"),
        (SetupStep::QueryProfiles, "Failed to query profiles: gone"),
        (SetupStep::QueryEntrypoints, "Failed to query entrypoints: gone"),
        (SetupStep::CreateConfig, "Failed to create config: gone"),
        (SetupStep::CreateInputSurfaces, "Failed to create input surfaces: gone"),
        (SetupStep::CreateReconSurfaces, "Failed to create recon surfaces: gone"),
        (SetupStep::CreateContext, "Failed to create context: gone"),
        (SetupStep::QueryImageFormats, "Failed to query image formats: gone"),
        (SetupStep::CreateCodedBuffer(1), "Failed to create coded buffer 1: gone"),
    ] {
        assert_eq!(VaapiError::Setup(step).message("gone"), words);
    }
    for (stage, words) in [
        (EncodeStage::Upload, "Failed to create VA image"),
        (EncodeStage::SequenceBuffer, "Failed to create seq buffer"),
        (EncodeStage::RateControlBuffer, "Failed to create rate control buffer"),
        (EncodeStage::HrdBuffer, "Failed to create HRD buffer"),
        (EncodeStage::FrameRateBuffer, "Failed to create frame rate buffer"),
        (EncodeStage::PackedSequenceParam, "Failed to create packed sequence param buffer"),
        (EncodeStage::PackedSequenceData, "Failed to create packed sequence data buffer"),
        (EncodeStage::PictureBuffer, "Failed to create pic buffer"),
        (EncodeStage::SliceBuffer, "Failed to create slice buffer"),
        (EncodeStage::PackedSliceParam, "Failed to create packed slice param buffer"),
        (EncodeStage::PackedSliceData, "Failed to create packed slice data buffer"),
        (EncodeStage::Render, "gone"),
        (EncodeStage::ReadCoded, "gone"),
    ] {
        assert_eq!(VaapiError::Encode(stage).message("gone"), words);
    }
}

#[test]
fn frame_errors_are_put_into_words() {
    let required = "encoder=vaapi requested but VA-API init failed";
    for (error, words) in [
        (FrameError::VaapiRequired(VaapiError::ProfileNotSupported), required),
        (FrameError::VaapiAvc444Required, required),
        (FrameError::RequiresEncodeAvc444, "AVC444 encoder requires encode_avc444"),
        (FrameError::RequiresSoftwareEncoder, "AVC444 encoding requires software encoder"),
        (FrameError::RequiresAvc444Encoder, "AVC444 encoding requires AVC444 encoder"),
        (FrameError::RequiresVaapi, "DMA-BUF encode requires VA-API backend"),
        (FrameError::Vaapi(VaapiError::Nv12NotSupported), "NV12 format not supported"),
        (FrameError::SoftwareInit, "no codec"),
        (FrameError::Avc444Init, "no codec"),
        (FrameError::SoftwareEncode, "no codec"),
        (FrameError::Avc444Encode, "no codec"),
    ] {
        assert_eq!(error.message("no codec"), words);
    }
}

/// Reads bits as a decoder does, emulation prevention bytes dropped.
struct BitReader {
    bytes: Vec<u8>,
    at: usize,
}

impl BitReader {
    fn new(coded: &[u8]) -> Self {
        let mut bytes: Vec<u8> = Vec::new();
        let mut zeros = 0;
        for &byte in coded {
            if zeros >= 2 && byte == 3 {
                zeros = 0;
                continue;
            }
            zeros = if byte == 0 { zeros + 1 } else { 0 };
            bytes.push(byte);
        }
        Self { bytes, at: 0 }
    }

    fn u(&mut self, n: usize) -> u32 {
        let mut value = 0;
        for _ in 0..n {
            let bit = self.bytes[self.at / 8] >> (7 - self.at % 8) & 1;
            value = value * 2 + u32::from(bit);
            self.at += 1;
        }
        value
    }

    fn ue(&mut self) -> u32 {
        let mut zeros = 0;
        while self.u(1) == 0 {
            zeros += 1;
        }
        (1 << zeros) - 1 + self.u(zeros)
    }
}

#[test]
fn a_decoder_reads_the_picture_size() {
    for (width, height) in [(1920, 1080), (64, 64), (2, 2), (704, 396), (3840, 2160), (18, 4096)] {
        for high_profile in [true, false] {
            let sets = parameter_sets(&StreamHeader {
                high_profile,
                level_idc: 40,
                width,
                height,
                fps: 60,
                max_num_ref_frames: 1,
                pic_init_qp: 23,
            });
            let mut sps = BitReader::new(&sets[4..]);
            assert_eq!(sps.u(8), 0x67);
            assert_eq!(sps.u(8), if high_profile { 100 } else { 77 });
            assert_eq!(sps.u(8), 0);
            assert_eq!(sps.u(8), 40);
            assert_eq!(sps.ue(), 0);
            if high_profile {
                assert_eq!((sps.ue(), sps.ue(), sps.ue(), sps.u(2)), (1, 0, 0, 0));
            }
            assert_eq!((sps.ue(), sps.ue(), sps.ue(), sps.ue(), sps.u(1)), (4, 0, 4, 1, 0));
            let mut size = (16 * (sps.ue() + 1), 16 * (sps.ue() + 1));
            assert_eq!(sps.u(2), 3);
            if sps.u(1) == 1 {
                size.0 -= 2 * (sps.ue() + sps.ue());
                size.1 -= 2 * (sps.ue() + sps.ue());
            }
            assert_eq!(size, (width, height));
            // Usability information: BT.709 full range, and two ticks a frame.
            assert_eq!(sps.u(4), 0b1001);
            assert_eq!((sps.u(3), sps.u(1), sps.u(1)), (5, 1, 1));
            assert_eq!((sps.u(8), sps.u(8), sps.u(8)), (1, 1, 1));
            assert_eq!(sps.u(2), 1);
            assert_eq!((sps.u(32), sps.u(32)), (1, 120));
        }
    }
}

#[test]
fn a_decoder_reads_where_a_slice_stands() {
    for (is_idr, frame_num, id, poc) in
        [(true, 0, 1, 0), (true, 255, 65_536 + 77, 254), (false, 200, 9, 144), (false, 1, 0, 2)]
    {
        let coded = slice_header(is_idr, frame_num, id, poc);
        assert_eq!(&coded[..4], &[0, 0, 0, 1]);
        let mut slice = BitReader::new(&coded[4..]);
        assert_eq!((slice.u(3), slice.u(5)), (3, if is_idr { 5 } else { 1 }));
        assert_eq!(slice.ue(), 0);
        assert_eq!(slice.ue(), if is_idr { 7 } else { 5 });
        assert_eq!(slice.ue(), 0);
        assert_eq!(slice.u(8), u32::from(frame_num));
        if is_idr {
            assert_eq!(slice.ue(), id % 65_536);
        }
        assert_eq!(slice.u(8), u32::from(poc));
    }
}

#[test]
fn guarded_bytes_hold_no_start_code_and_are_read_back() {
    let mut state = 0x1234_5678_9abc_def1u64;
    for _ in 0..200 {
        let mut bytes = Vec::new();
        for _ in 0..40 {
            state ^= state << 13;
            state ^= state >> 7;
            state ^= state << 17;
            bytes.push((state >> 20) as u8 & 3 & (state >> 30) as u8);
        }
        let mut bs = BitWriter::new();
        for &byte in &bytes {
            bs.write_bits(u32::from(byte), 8);
        }
        let guarded = bs.finish_with_emulation_prevention();
        assert!(guarded.windows(3).all(|w| !(w[0] == 0 && w[1] == 0 && w[2] <= 2)));
        assert_eq!(BitReader::new(&guarded).bytes, bytes);
    }
}

#[test]
fn grey_pictures_have_neutral_chroma() {
    for v in [0u8, 1, 77, 128, 254, 255] {
        let shape = BgraShape { width: 2, height: 2, stride: 8 };
        let layout = Nv12Layout { y_offset: 0, y_pitch: 2, uv_offset: 4, uv_pitch: 2 };
        let mut image = [0u8; 6];
        bgra_to_nv12(&[v; 16], &mut image, shape, layout);
        assert_eq!(&image[4..], &[128, 128]);
        assert!(image[0] <= v && v - image[0] <= 1);
    }
}
