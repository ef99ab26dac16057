//! What the driver is told of a frame, and what it is told from frame to frame.
use vstd::prelude::*;

use super::bits::{
    bits_of_bytes, escape, pack, pad, the_written_bits_are_found, unescape, zeros,
};
use super::device::H264Profile;
use super::h264::sps_pps_of;
use super::headers::{annex_b, pps_bits, slice_bits, sps_bits};
use super::rate_control::H264RateControl;
use super::reference::VaapiReferenceMode;
use super::syntax::{
    picture_parameter_sets_are_read_back, pps_syntax, read, sequence_parameter_sets_are_read_back,
    slice_syntax, slice_values, sps_syntax, sps_values, whole_slice_headers_are_read_back,
};
use super::vaapi::{
    bytes, of_imported, DmabufFrame, DriverReport, EncodeStage, EncoderSettings, FramePlan,
    PictureH264, PrimeSurface, SubmitOutcome, VaapiEncoder, VaapiError,
};

verus! {

/// Whether `n` blocks of sixteen just cover a side.
pub open spec fn just_covers(n: int, side: int) -> bool {
    16 * (n - 1) < side <= 16 * n
}

/// The size that the driver is told covers the picture with less than a macroblock to
/// spare on each side, and every frame is one slice of all its macroblocks. Sides of
/// more than 65535 macroblocks cannot be told.
pub proof fn the_driver_is_told_the_picture_size(enc: VaapiEncoder, input: u32, plan: FramePlan)
    requires
        enc.plan_is(input, plan),
        0 < enc.settings.width <= 16 * 65535,
        0 < enc.settings.height <= 16 * 65535,
    ensures
        plan.is_idr ==> {
            &&& plan.sequence is Some
            &&& just_covers(
                plan.sequence->0.picture_width_in_mbs as int,
                enc.settings.width as int,
            )
            &&& just_covers(
                plan.sequence->0.picture_height_in_mbs as int,
                enc.settings.height as int,
            )
            &&& plan.slice.num_macroblocks == plan.sequence->0.picture_width_in_mbs
                * plan.sequence->0.picture_height_in_mbs
        },
        forall|across: int, down: int| #[trigger]
            just_covers(across, enc.settings.width as int) && #[trigger] just_covers(
                down,
                enc.settings.height as int,
            ) ==> plan.slice.num_macroblocks == across * down,
{
}

/// Only a frame that starts a sequence carries sequence parameters and rate control:
/// one that was asked for, and in a plain sequence every thirtieth. Packed headers go
/// to the drivers that want them.
pub proof fn what_a_plan_holds(enc: VaapiEncoder, input: u32, plan: FramePlan)
    requires
        enc.plan_is(input, plan),
    ensures
        plan.is_idr <==> enc.force_idr || (enc.reference_mode == VaapiReferenceMode::Single
            && enc.frame_count % 30 == 0),
        plan.sequence is Some <==> plan.is_idr,
        plan.rate_control is Some <==> plan.is_idr,
        plan.packed_sequence is Some <==> plan.is_idr && enc.packed_sequence_required,
        plan.packed_slice is Some <==> enc.packed_slice_required,
        plan.input_surface == input,
{
}

/// The pace that the driver is told is that of the settings: two ticks a frame, an
/// IDR every thirty frames at the latest, no reordering and one reference.
pub proof fn the_driver_is_told_the_pace(enc: VaapiEncoder, input: u32, plan: FramePlan)
    requires
        enc.plan_is(input, plan),
        plan.is_idr,
        enc.settings.rate_fits(),
    ensures
        ({
            let p = plan.sequence->0;
            &&& p.num_units_in_tick == 1
            &&& p.time_scale == 2 * enc.settings.fps
            &&& plan.rate_control->0.framerate == enc.settings.fps
            &&& p.intra_period == 30 && p.intra_idr_period == 30
            &&& p.ip_period == 1
            &&& p.max_num_ref_frames == 1
            &&& p.bits_per_second == enc.settings.bitrate
            &&& p.sar_width == p.sar_height && p.sar_width > 0
            &&& p.vui_parameters_present_flag == 1
        }),
{
}

/// The sequence flags say what the sequence parameter set does: 4:2:0, frames only,
/// direct 8x8 inference, and counters of eight bits.
pub proof fn the_flags_agree_with_the_parameter_sets(
    enc: VaapiEncoder,
    input: u32,
    plan: FramePlan,
)
    requires
        enc.plan_is(input, plan),
    ensures
        plan.is_idr ==> {
            let f = plan.sequence->0.seq_fields as int;
            let v = plan.sequence->0.vui_fields as int;
            &&& f % 4 == 1
            &&& f / 4 % 2 == 1
            &&& f / 8 % 4 == 0
            &&& f / 32 % 2 == 1
            &&& f / 64 % 16 == 4
            &&& f / 1024 % 4 == 0
            &&& f / 4096 == 4
            &&& v % 2 == 0
            &&& v / 2 % 2 == 1
            &&& v / 4 % 2 == 1
            &&& v / 8 % 32 == 16
            &&& v / 256 % 128 == 16
            &&& v / 32768 == 1
        },
        ({
            let p = plan.picture.pic_fields as int;
            &&& p % 2 == if plan.is_idr {
                1int
            } else {
                0
            }
            &&& p / 2 % 4 == 1
            &&& p / 8 % 2 == 1
            &&& p / 16 % 16 == 0
            &&& p / 256 % 2 == if enc.profile == H264Profile::High {
                1int
            } else {
                0
            }
            &&& p / 512 == 1
        }),
{
}

/// The level that the driver is told is the lowest offered one whose macroblock rate
/// is enough for whole macroblocks of the picture.
pub proof fn the_level_follows_the_macroblock_rate(enc: VaapiEncoder, input: u32, plan: FramePlan)
    requires
        enc.plan_is(input, plan),
        plan.is_idr,
    ensures
        ({
            let s = enc.settings;
            let rate = (s.width as int / 16) * (s.height as int / 16) * s.fps;
            let level = plan.sequence->0.level_idc;
            &&& level == 30 <==> rate <= 40500
            &&& level == 31 <==> 40500 < rate <= 108000
            &&& level == 40 <==> 108000 < rate <= 245760
            &&& level == 41 <==> 245760 < rate <= 589824
            &&& level == 50 <==> 589824 < rate <= 983040
            &&& level == 51 <==> 983040 < rate
        }),
{
}

/// Variable bitrate spends the bitrate that is asked for, with a decoder buffer of a
/// second that starts half full, and leaves the quantiser to the driver.
pub proof fn variable_bitrate_spends_the_bitrate(enc: VaapiEncoder, input: u32, plan: FramePlan)
    requires
        enc.plan_is(input, plan),
        plan.is_idr,
        enc.settings.rate_control == H264RateControl::Vbr,
    ensures
        ({
            let p = plan.rate_control->0;
            let bitrate = enc.settings.bitrate as int;
            &&& p.bits_per_second == bitrate
            &&& p.target_percentage == 100 && p.window_size == 1000
            &&& p.hrd_buffer_size == bitrate
            &&& bitrate - 1 <= 2 * p.hrd_initial_buffer_fullness <= bitrate
            &&& p.initial_qp == 0 && p.min_qp == 0 && p.max_qp == 0 && p.rc_flags == 0
            &&& plan.picture.pic_init_qp == 26
        }),
{
}

/// A constant quantiser is the quality that is asked for, as far as H.264 knows it,
/// from the first picture on; no bitrate is told.
pub proof fn a_constant_quantiser_is_the_quality(enc: VaapiEncoder, input: u32, plan: FramePlan)
    requires
        enc.plan_is(input, plan),
        enc.settings.rate_control == H264RateControl::Cqp,
    ensures
        plan.picture.pic_init_qp <= 51,
        enc.settings.quality <= 51 ==> plan.picture.pic_init_qp == enc.settings.quality,
        enc.settings.quality >= 51 ==> plan.picture.pic_init_qp == 51,
        plan.is_idr ==> {
            let p = plan.rate_control->0;
            &&& p.initial_qp == plan.picture.pic_init_qp
            &&& p.min_qp == plan.picture.pic_init_qp
            &&& p.max_qp == plan.picture.pic_init_qp
            &&& p.bits_per_second == 0 && p.hrd_buffer_size == 0
            &&& p.hrd_initial_buffer_fullness == 0
            &&& p.rc_flags == 2
            &&& p.target_percentage == 100 && p.window_size == 1000
        },
{
}

/// A slot of a reference list that holds nothing.
pub open spec fn is_empty_slot(p: PictureH264) -> bool {
    p.picture_id == 0xffff_ffff && p.flags == 1
}

/// The parts of a plan agree on the frame: its number, its picture order count in both
/// fields, its buffer, and that it is kept for reference. The picture is written to the
/// surface that is next, and read from the buffer that is next.
pub proof fn the_parts_of_a_plan_agree(enc: VaapiEncoder, input: u32, plan: FramePlan)
    requires
        enc.plan_is(input, plan),
    ensures
        plan.frame_num == enc.frame_count % 256,
        plan.poc == (2 * enc.frame_count) % 256,
        plan.picture.frame_num == plan.frame_num,
        plan.picture.curr_pic.frame_idx == plan.frame_num,
        plan.picture.curr_pic.top_field_order_cnt == plan.poc,
        plan.picture.curr_pic.bottom_field_order_cnt == plan.poc,
        plan.picture.curr_pic.flags == 8,
        plan.picture.curr_pic.picture_id == enc.recon_surfaces@[enc.current_recon_surface as int],
        plan.picture.coded_buf == plan.coded_buffer,
        plan.coded_buffer == enc.coded_buffers@[enc.current_coded_buffer as int],
        plan.slice.idr_pic_id == plan.frame_num,
        plan.slice.pic_order_cnt_lsb == plan.poc,
        plan.slice.macroblock_info == 0xffff_ffff,
        plan.slice.slice_type == if plan.is_idr {
            2int
        } else {
            0
        },
{
}

/// A frame that starts a sequence refers to nothing. Any other refers to the picture
/// recorded last and to nothing else, as a short-term reference and in the first list
/// alone.
pub proof fn a_plan_refers_to_the_last_picture(enc: VaapiEncoder, input: u32, plan: FramePlan)
    requires
        enc.plan_is(input, plan),
    ensures
        plan.picture.reference_frames@.len() == 16,
        plan.slice.ref_pic_list_0@.len() == 32,
        plan.slice.ref_pic_list_1@.len() == 32,
        forall|i: int| 0 < i < 16 ==> is_empty_slot(#[trigger] plan.picture.reference_frames@[i]),
        forall|i: int| 0 < i < 32 ==> is_empty_slot(#[trigger] plan.slice.ref_pic_list_0@[i]),
        forall|i: int| 0 <= i < 32 ==> is_empty_slot(#[trigger] plan.slice.ref_pic_list_1@[i]),
        plan.picture.reference_frames@[0] == plan.slice.ref_pic_list_0@[0],
        ({
            let first = plan.slice.ref_pic_list_0@[0];
            if plan.is_idr || enc.references.last is None {
                is_empty_slot(first) && plan.slice.num_ref_idx_active_override_flag == 0
            } else {
                let last = enc.references.last->0;
                &&& first.picture_id == last.surface_id
                &&& first.frame_idx == last.frame_num
                &&& first.top_field_order_cnt == last.poc
                &&& first.bottom_field_order_cnt == last.poc
                &&& first.flags == 8
                &&& plan.slice.num_ref_idx_active_override_flag == 1
            }
        }),
{
}

/// From one coded frame to the next: the numbers go on, and a frame that does not start
/// a sequence refers to the picture that was just coded, by its surface, number and
/// order, and is itself coded elsewhere.
#[verifier::spinoff_prover]
#[verifier::rlimit(60)]
pub proof fn each_frame_follows_the_one_before(
    first: VaapiEncoder,
    second: VaapiEncoder,
    input: u32,
    next_input: u32,
    plan: FramePlan,
    next: FramePlan,
    outcome: SubmitOutcome,
    r: Result<Vec<u8>, VaapiError>,
)
    requires
        first.wf(),
        first.recon_surfaces@.len() == 2,
        first.recon_surfaces@[0] != first.recon_surfaces@[1],
        first.plan_is(input, plan),
        first.frame_done(second, outcome, r),
        r is Ok,
        second.plan_is(next_input, next),
    ensures
        next.frame_num == (plan.frame_num + 1) % 256,
        next.poc == (plan.poc + 2) % 256,
        next.picture.curr_pic.picture_id != plan.picture.curr_pic.picture_id,
        !next.is_idr ==> {
            let reference = next.slice.ref_pic_list_0@[0];
            &&& reference.picture_id == plan.picture.curr_pic.picture_id
            &&& reference.frame_idx == plan.frame_num
            &&& reference.top_field_order_cnt == plan.poc
            &&& reference.bottom_field_order_cnt == plan.poc
        },
        second.settings == first.settings,
{
    the_parts_of_a_plan_agree(first, input, plan);
    the_parts_of_a_plan_agree(second, next_input, next);
    a_plan_refers_to_the_last_picture(second, next_input, next);
    buffers_are_used_in_turn(first, second, outcome, r);
}

/// The buffers are used in turn: after each frame, whatever became of it, the next ones
/// are the ones behind, and behind the last one the first.
pub proof fn buffers_are_used_in_turn(
    pre: VaapiEncoder,
    post: VaapiEncoder,
    outcome: SubmitOutcome,
    r: Result<Vec<u8>, VaapiError>,
)
    requires
        pre.wf(),
        pre.frame_done(post, outcome, r),
    ensures
        post.current_recon_surface == if pre.current_recon_surface + 1
            == pre.recon_surfaces@.len() {
            0
        } else {
            pre.current_recon_surface + 1
        },
        post.current_coded_buffer == if pre.current_coded_buffer + 1 == pre.coded_buffers@.len() {
            0
        } else {
            pre.current_coded_buffer + 1
        },
        post.recon_surfaces@ == pre.recon_surfaces@,
        post.coded_buffers@ == pre.coded_buffers@,
        post.input_surfaces@ == pre.input_surfaces@,
{
    let n = pre.recon_surfaces@.len() as int;
    let m = pre.coded_buffers@.len() as int;
    lemma_next(pre.current_recon_surface as int, n);
    lemma_next(pre.current_coded_buffer as int, m);
}

proof fn lemma_next(i: int, n: int)
    requires
        0 <= i < n,
    ensures
        (i + 1) % n == if i + 1 == n {
            0
        } else {
            i + 1
        },
{
    if i + 1 < n {
        vstd::arithmetic::div_mod::lemma_small_mod((i + 1) as nat, n as nat);
    } else {
        vstd::arithmetic::div_mod::lemma_mod_self_0(n);
    }
}

/// A frame from memory is planned on the next surface of the input pool, which is
/// then used in turn, and is the outcome of that plan.
pub proof fn a_frame_from_memory_uses_the_pool<S>(
    pre: VaapiEncoder,
    post: VaapiEncoder,
    submit: S,
    r: Result<Vec<u8>, VaapiError>,
) where S: FnOnce(FramePlan) -> SubmitOutcome
    requires
        pre.wf(),
        pre.encoded(post, submit, r),
    ensures
        post.current_input_surface == if pre.current_input_surface + 1
            == pre.input_surfaces@.len() {
            0
        } else {
            pre.current_input_surface + 1
        },
        post.dmabuf_input_surface == pre.dmabuf_input_surface,
        exists|plan: FramePlan, outcome: SubmitOutcome|
            {
                &&& pre.plan_is(pre.input_surfaces@[pre.current_input_surface as int], plan)
                &&& #[trigger] submit.ensures((plan,), outcome)
                &&& pre.frame_done(post, outcome, r)
            },
{
    lemma_next(pre.current_input_surface as int, pre.input_surfaces@.len() as int);
}

/// A frame from another device is planned on the surface that was imported for it:
/// the one known from earlier, or else what the import gave. The input pool is left
/// alone.
pub proof fn a_frame_from_another_device_is_imported_once<I, S>(
    pre: VaapiEncoder,
    post: VaapiEncoder,
    frame: DmabufFrame,
    import: I,
    submit: S,
    r: Result<Vec<u8>, VaapiError>,
) where I: FnOnce(PrimeSurface) -> Option<u32>, S: FnOnce(FramePlan) -> SubmitOutcome
    requires
        pre.encoded_dmabuf(post, frame, import, submit, r),
    ensures
        post.current_input_surface == pre.current_input_surface,
        pre.dmabuf_input_surface is Some ==> post.dmabuf_input_surface == pre.dmabuf_input_surface,
        pre.dmabuf_input_surface is None ==> import.ensures(
            (frame.prime(),),
            post.dmabuf_input_surface,
        ),
        post.dmabuf_input_surface is None ==> r is Err,
        r is Ok ==> exists|plan: FramePlan, data: Vec<u8>|
            {
                &&& pre.plan_is(post.dmabuf_input_surface->0, plan)
                &&& #[trigger] submit.ensures((plan,), SubmitOutcome::Coded(data))
                &&& pre.frame_done(post, SubmitOutcome::Coded(data), r)
            },
{
    if r is Ok {
        let (plan, outcome, coded) = choose|
            plan: FramePlan,
            outcome: SubmitOutcome,
            coded: Result<Vec<u8>, VaapiError>,
        |
            pre.plan_is(post.dmabuf_input_surface->0, plan) && #[trigger] submit.ensures(
                (plan,),
                outcome,
            ) && #[trigger] pre.frame_done(post, outcome, coded) && r
                == of_imported(coded);
        let data = outcome->Coded_0;
        assert(outcome == SubmitOutcome::Coded(data));
        assert(submit.ensures((plan,), SubmitOutcome::Coded(data)));
        assert(coded == r);
    }
}

/// What the driver is told of an imported buffer: both planes where they are, and an
/// object that ends with the plane that ends last.
pub proof fn both_planes_lie_in_the_object(frame: DmabufFrame)
    requires
        frame.offset + frame.height * frame.stride <= u32::MAX,
        frame.uv_offset + (frame.height as int / 2) * frame.uv_stride <= u32::MAX,
    ensures
        ({
            let p = frame.prime();
            &&& frame.fits()
            &&& p.y_offset + p.height * p.y_pitch <= p.size
            &&& p.uv_offset + (p.height as int / 2) * p.uv_pitch <= p.size
            &&& p.size == p.y_offset + p.height * p.y_pitch || p.size == p.uv_offset + (
            p.height as int / 2) * p.uv_pitch
            &&& p.width == frame.width && p.height == frame.height
            &&& p.y_offset == frame.offset && p.y_pitch == frame.stride
            &&& p.uv_offset == frame.uv_offset && p.uv_pitch == frame.uv_stride
            &&& p.fd == frame.fd && p.modifier == frame.modifier
            &&& p.fourcc == 0x4e + 0x56 * 0x100 + 0x31 * 0x1_0000 + 0x32 * 0x100_0000
        }),
{
    assert(0 <= frame.height * frame.stride) by (nonlinear_arith);
    assert(0 <= (frame.height as int / 2) * frame.uv_stride) by (nonlinear_arith);
}

/// A coded frame ends with what the driver coded. In front of it stand parameter sets
/// or nothing: none of our own where the driver wrote its own, those that are known
/// where it is not an IDR, and nothing where none are known.
pub proof fn the_coded_data_is_kept(
    pre: VaapiEncoder,
    post: VaapiEncoder,
    data: Vec<u8>,
    r: Result<Vec<u8>, VaapiError>,
)
    requires
        pre.frame_done(post, SubmitOutcome::Coded(data), r),
    ensures
        r is Ok,
        ({
            let frame = r->Ok_0@;
            &&& frame.len() >= data@.len()
            &&& frame.skip(frame.len() - data@.len()) == data@
            &&& pre.idr_due() && sps_pps_of(data@) is Some ==> frame == data@
                && post.cached_sps_pps is Some && Some(post.cached_sps_pps->0@)
                == sps_pps_of(data@)
            &&& pre.idr_due() && sps_pps_of(data@) is None
                ==> post.cached_sps_pps is Some && frame == post.cached_sps_pps->0@ + data@
            &&& !pre.idr_due() && pre.cached_sps_pps is Some ==> frame
                == pre.cached_sps_pps->0@ + data@
            &&& !pre.idr_due() && pre.cached_sps_pps is None ==> frame == data@
        }),
        !post.force_idr,
        post.frame_count == pre.frame_count + 1,
        post.idr_pic_id == if pre.idr_due() && pre.packed_slice_required {
            (pre.idr_pic_id + 1) % 0x1_0000_0000
        } else {
            pre.idr_pic_id as int
        },
        post.references.last is Some,
        post.references.last->0.surface_id == pre.recon_surfaces@[pre.current_recon_surface as int],
        post.references.last->0.frame_num == pre.frame_count % 256,
        post.references.last->0.poc == (2 * pre.frame_count) % 256,
{
    let frame = r->Ok_0@;
    let before = frame.take(frame.len() - data@.len());
    assert(frame.skip(frame.len() - data@.len()) =~= data@);
    assert(bytes(post.cached_sps_pps) is Some <==> post.cached_sps_pps is Some);
    assert(Seq::<u8>::empty() + data@ =~= data@);
}

/// The bits of a coded unit, as a decoder finds them.
pub open spec fn decoded(coded: Seq<u8>) -> Seq<bool> {
    bits_of_bytes(unescape(coded))
}

proof fn lemma_decoded(unit: Seq<bool>)
    ensures
        annex_b(unit).take(4) == seq![0u8, 0u8, 0u8, 1u8],
        decoded(annex_b(unit).skip(4)) == unit + zeros(((8 - unit.len() % 8) % 8) as nat),
{
    the_written_bits_are_found(unit);
    assert(annex_b(unit).take(4) =~= seq![0u8, 0u8, 0u8, 1u8]);
    assert(annex_b(unit).skip(4) =~= escape(pack(pad(unit))));
}

/// A sequence and a picture parameter set, each behind a start code, that tell a decoder
/// the size and pace of the settings, the profile, the level, and the quantiser that the
/// pictures start with.
pub open spec fn are_parameter_sets(
    sets: Seq<u8>,
    s: EncoderSettings,
    high: bool,
    level: int,
    qp: int,
) -> bool {
    exists|n: int|
        {
            &&& 4 <= n && n + 4 <= sets.len()
            &&& sets.take(4) == seq![0u8, 0u8, 0u8, 1u8]
            &&& #[trigger] sets.subrange(n, n + 4) == seq![0u8, 0u8, 0u8, 1u8]
            &&& read(
                decoded(sets.subrange(4, n)),
                sps_syntax(high, s.width % 16 != 0 || s.height % 16 != 0),
            ) == sps_values(high, level, s.width as int, s.height as int, s.fps as int, 1)
            &&& read(decoded(sets.skip(n + 4)), pps_syntax()) == seq![
                0,
                3,
                8,
                0,
                0,
                1,
                0,
                0,
                0,
                0,
                0,
                0,
                qp - 26,
                0,
                0,
                1,
                0,
                0,
                if high {
                    1int
                } else {
                    0
                },
                0,
                0,
            ]
        }
}

proof fn lemma_own_sets(enc: VaapiEncoder)
    requires
        enc.wf(),
        enc.settings.rate_fits(),
    ensures
        are_parameter_sets(
            enc.sps_pps(),
            enc.settings,
            enc.profile == H264Profile::High,
            enc.settings.level() as int,
            enc.settings.policy().pic_init_qp as int,
        ),
{
    let sets = enc.sps_pps();
    let h = enc.header();
    let sps = annex_b(sps_bits(h));
    let pps = annex_b(pps_bits(h));
    let n = sps.len() as int;
    lemma_decoded(sps_bits(h));
    lemma_decoded(pps_bits(h));
    assert(sets == sps + pps);
    assert(sets.take(4) =~= sps.take(4));
    assert(sets.subrange(n, n + 4) =~= pps.take(4));
    assert(sets.subrange(4, n) =~= sps.skip(4));
    assert(sets.skip(n + 4) =~= pps.skip(4));
    sequence_parameter_sets_are_read_back(
        h,
        zeros(((8 - sps_bits(h).len() % 8) % 8) as nat),
    );
    picture_parameter_sets_are_read_back(h, zeros(((8 - pps_bits(h).len() % 8) % 8) as nat));
}

/// The parameter sets that go with an IDR say what the rest of its plan does.
pub proof fn packed_parameter_sets_are_read(enc: VaapiEncoder, input: u32, plan: FramePlan)
    requires
        enc.wf(),
        enc.settings.rate_fits(),
        enc.plan_is(input, plan),
        plan.packed_sequence is Some,
    ensures
        are_parameter_sets(
            plan.packed_sequence->0@,
            enc.settings,
            enc.profile == H264Profile::High,
            plan.sequence->0.level_idc as int,
            plan.picture.pic_init_qp as int,
        ),
{
    lemma_own_sets(enc);
    assert(bytes(plan.packed_sequence) == Some(enc.sps_pps()));
}

/// Where the driver codes an IDR without parameter sets, the frame begins with ones that
/// say what its plan does, and these are remembered.
pub proof fn missing_parameter_sets_are_supplied(
    enc: VaapiEncoder,
    post: VaapiEncoder,
    input: u32,
    plan: FramePlan,
    data: Vec<u8>,
    r: Result<Vec<u8>, VaapiError>,
)
    requires
        enc.wf(),
        enc.settings.rate_fits(),
        enc.plan_is(input, plan),
        plan.is_idr,
        enc.frame_done(post, SubmitOutcome::Coded(data), r),
        sps_pps_of(data@) is None,
    ensures
        post.cached_sps_pps is Some,
        are_parameter_sets(
            post.cached_sps_pps->0@,
            enc.settings,
            enc.profile == H264Profile::High,
            plan.sequence->0.level_idc as int,
            plan.picture.pic_init_qp as int,
        ),
        r is Ok && r->Ok_0@ == post.cached_sps_pps->0@ + data@,
{
    lemma_own_sets(enc);
    the_coded_data_is_kept(enc, post, data, r);
    assert(bytes(post.cached_sps_pps) == Some(enc.sps_pps()));
}

/// The packed slice header tells a decoder the frame number and the picture order count
/// of the plan, and for an IDR a number that differs from the one before.
pub proof fn packed_slice_headers_are_read(enc: VaapiEncoder, input: u32, plan: FramePlan)
    requires
        enc.plan_is(input, plan),
        plan.packed_slice is Some,
    ensures
        ({
            let header = plan.packed_slice->0@;
            &&& header.take(4) == seq![0u8, 0u8, 0u8, 1u8]
            &&& read(decoded(header.skip(4)), slice_syntax(plan.is_idr)) == slice_values(
                plan.is_idr,
                plan.frame_num as int,
                (enc.idr_pic_id + 1) % 0x1_0000,
                plan.poc as int,
            )
        }),
{
    let header = plan.packed_slice->0@;
    let unit = slice_bits(
        enc.idr_due(),
        enc.next_frame_num(),
        enc.next_idr_pic_id(),
        enc.next_poc() as u8,
    );
    assert(bytes(plan.packed_slice) == Some(annex_b(unit)));
    lemma_decoded(unit);
    whole_slice_headers_are_read_back(
        enc.idr_due(),
        enc.next_frame_num(),
        enc.next_idr_pic_id(),
        enc.next_poc() as u8,
        zeros(((8 - unit.len() % 8) % 8) as nat),
    );
}

/// An encoder is set up exactly where a device was found and opened, it encodes slices
/// of the High or the Main profile, and everything that was asked for could be created.
pub proof fn what_an_encoder_needs(report: DriverReport)
    ensures
        report.obstacle() is None <==> {
            &&& report.device is Ok
            &&& report.opened
            &&& report.profiles is Some
            &&& report.profiles->0@.contains(7i32) || report.profiles->0@.contains(6i32)
            &&& report.entrypoints is Some
            &&& report.entrypoints->0@.contains(6u32)
            &&& report.configured
            &&& report.input_surfaces is Some && report.input_surfaces->0@.len() == 3
            &&& report.recon_surfaces is Some && report.recon_surfaces->0@.len() == 2
            &&& report.context_created
            &&& report.image_formats is Some
            &&& report.image_formats->0@.contains(0x3231_564eu32)
            &&& report.coded_buffers@.len() == 3
        },
        match report.device {
            Err(e) => report.obstacle() == Some(VaapiError::Device(e)),
            Ok(_) => true,
        },
{
}

/// A new encoder has the settings and the surfaces that it was set up with, the High
/// profile where the driver lists it, and writes the headers that the driver asks for.
pub proof fn a_new_encoder_is_as_it_was_set_up(
    enc: VaapiEncoder,
    settings: EncoderSettings,
    mode: VaapiReferenceMode,
    report: DriverReport,
)
    requires
        enc.is_fresh(settings, mode, report),
        report.obstacle() is None,
    ensures
        enc.settings == settings,
        enc.reference_mode == mode,
        enc.input_surfaces@ == report.input_surfaces->0@,
        enc.recon_surfaces@ == report.recon_surfaces->0@,
        enc.coded_buffers@ == report.coded_buffers@,
        enc.profile == H264Profile::High <==> report.profiles->0@.contains(7i32),
        enc.packed_sequence_required <==> report.packed_headers is Some
            && report.packed_headers->0 != 0x8000_0000 && report.packed_headers->0 & 1 != 0,
        enc.packed_slice_required <==> report.packed_headers is Some
            && report.packed_headers->0 != 0x8000_0000 && report.packed_headers->0 & 4 != 0,
        enc.frame_count == 0,
        enc.force_idr,
        enc.cached_sps_pps is None,
        enc.dmabuf_input_surface is None,
        enc.references.last is None,
        enc.current_input_surface == 0 && enc.current_recon_surface == 0
            && enc.current_coded_buffer == 0,
{
}

/// What a frame that failed leaves behind: the error names the call, the frame is not
/// counted, a picture that was rendered can be referred to, an IDR forgets earlier
/// pictures once it is uploaded, and headers count as sent once their buffers were
/// created.
pub proof fn what_a_failed_frame_leaves(
    pre: VaapiEncoder,
    post: VaapiEncoder,
    stage: EncodeStage,
    r: Result<Vec<u8>, VaapiError>,
)
    requires
        pre.frame_done(post, SubmitOutcome::Failed(stage), r),
    ensures
        r == Err::<Vec<u8>, _>(VaapiError::Encode(stage)),
        post.force_idr == pre.force_idr,
        post.frame_count == pre.frame_count,
        post.settings == pre.settings,
        match stage {
            EncodeStage::ReadCoded => {
                &&& post.references.last is Some
                &&& post.references.last->0.surface_id
                    == pre.recon_surfaces@[pre.current_recon_surface as int]
                &&& post.references.last->0.frame_num == pre.frame_count % 256
                &&& post.references.last->0.poc == (2 * pre.frame_count) % 256
            },
            EncodeStage::Upload => post.references == pre.references,
            _ => if pre.idr_due() {
                post.references.last is None
            } else {
                post.references == pre.references
            },
        },
        match stage {
            EncodeStage::PictureBuffer
            | EncodeStage::SliceBuffer
            | EncodeStage::PackedSliceParam
            | EncodeStage::PackedSliceData
            | EncodeStage::Render
            | EncodeStage::ReadCoded => pre.idr_due() && pre.packed_sequence_required
                ==> post.cached_sps_pps is Some,
            _ => bytes(post.cached_sps_pps) == bytes(pre.cached_sps_pps),
        },
        match stage {
            EncodeStage::PackedSliceParam
            | EncodeStage::PackedSliceData
            | EncodeStage::Render
            | EncodeStage::ReadCoded => post.idr_pic_id == if pre.idr_due()
                && pre.packed_slice_required {
                (pre.idr_pic_id + 1) % 0x1_0000_0000
            } else {
                pre.idr_pic_id as int
            },
            _ => post.idr_pic_id == pre.idr_pic_id,
        },
{
    assert(bytes(post.cached_sps_pps) is Some <==> post.cached_sps_pps is Some);
}

/// Sizes that can be encoded are even and not empty; a coded buffer then has room for a
/// byte of luma a pixel and two bytes of chroma for every four.
pub proof fn a_coded_buffer_holds_a_picture(s: EncoderSettings)
    ensures
        s.dimensions_ok() <==> s.width >= 2 && s.height >= 2 && s.width % 2 == 0 && s.height % 2
            == 0,
        s.dimensions_ok() ==> s.coded_size() == s.width * s.height + 2 * ((s.width as int / 2) * (
        s.height as int / 2)),
{
    if s.dimensions_ok() {
        let a = s.width as int / 2;
        let b = s.height as int / 2;
        assert(s.width * s.height == 4 * (a * b)) by (nonlinear_arith)
            requires
                s.width == 2 * a,
                s.height == 2 * b,
        ;
    }
}

} // verus!
