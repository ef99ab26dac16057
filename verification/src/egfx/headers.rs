//! H.264 parameter sets and slice headers.
//!
//! Each unit is given as the run of syntax elements that it holds, in order,
//! every spec function appending its elements to the bits before it.
use vstd::prelude::*;

use super::bits::{bits, escape, pack, pad, se_bits, ue_bits, with_trailing_bits, BitWriter};

verus! {

/// `profile_idc` of the High profile.
pub const PROFILE_IDC_HIGH: u32 = 100;

/// `profile_idc` of the Main profile.
pub const PROFILE_IDC_MAIN: u32 = 77;

/// What the parameter sets of a stream depend on.
#[derive(Clone, Copy, Debug, PartialEq, Eq, Structural)]
pub struct StreamHeader {
    pub high_profile: bool,
    pub level_idc: u8,
    pub width: u32,
    pub height: u32,
    pub fps: u32,
    pub max_num_ref_frames: u32,
    pub pic_init_qp: u8,
}

/// `s` followed by an `n`-bit field.
pub open spec fn u(s: Seq<bool>, value: nat, n: nat) -> Seq<bool> {
    s + bits(value, n)
}

/// `s` followed by an unsigned Exp-Golomb code.
pub open spec fn ue(s: Seq<bool>, value: nat) -> Seq<bool> {
    s + ue_bits(value)
}

/// `s` followed by a signed Exp-Golomb code.
pub open spec fn se(s: Seq<bool>, value: int) -> Seq<bool> {
    s + se_bits(value)
}

/// `n` sixteenths, rounded up.
pub open spec fn macroblocks(n: nat) -> nat {
    (n + 15) / 16
}

/// How many chroma-sized steps of two the coded size exceeds the picture by.
pub open spec fn crop_steps(n: nat) -> nat {
    ((macroblocks(n) * 16 - n) / 2) as nat
}

/// The one-byte NAL unit header of a reference unit.
pub open spec fn nal_header(nal_unit_type: nat) -> Seq<bool> {
    u(u(u(Seq::empty(), 0, 1), 3, 2), nal_unit_type, 5)
}

/// Profile, level, and the chroma format that only the High profile writes.
pub open spec fn sps_profile(s: Seq<bool>, h: StreamHeader) -> Seq<bool> {
    let idc = if h.high_profile {
        PROFILE_IDC_HIGH as nat
    } else {
        PROFILE_IDC_MAIN as nat
    };
    let s = ue(u(u(u(s, idc, 8), 0, 8), h.level_idc as nat, 8), 0);
    if h.high_profile {
        u(u(ue(ue(ue(s, 1), 0), 0), 0, 1), 0, 1)
    } else {
        s
    }
}

/// Counters, reference frames, the size in macroblocks and the cropping.
pub open spec fn sps_frame(s: Seq<bool>, h: StreamHeader) -> Seq<bool> {
    let s = u(ue(ue(ue(ue(s, 4), 0), 4), h.max_num_ref_frames as nat), 0, 1);
    let s = ue(s, (macroblocks(h.width as nat) - 1) as nat);
    let s = ue(s, (macroblocks(h.height as nat) - 1) as nat);
    let s = u(u(s, 1, 1), 1, 1);
    if h.width % 16 != 0 || h.height % 16 != 0 {
        let s = ue(ue(u(s, 1, 1), 0), crop_steps(h.width as nat));
        ue(ue(s, 0), crop_steps(h.height as nat))
    } else {
        u(s, 0, 1)
    }
}

/// Usability information: BT.709 full range, and the tick rate.
pub open spec fn sps_vui(s: Seq<bool>, h: StreamHeader) -> Seq<bool> {
    let s = u(u(u(u(s, 1, 1), 0, 1), 0, 1), 1, 1);
    let s = u(u(u(s, 5, 3), 1, 1), 1, 1);
    let s = u(u(u(s, 1, 8), 1, 8), 1, 8);
    let s = u(u(s, 0, 1), 1, 1);
    let s = u(u(s, 1, 32), (h.fps * 2) as nat, 32);
    let s = u(u(u(u(s, 0, 1), 0, 1), 0, 1), 0, 1);
    let s = u(u(s, 1, 1), 1, 1);
    let s = ue(ue(ue(ue(s, 0), 0), 16), 16);
    ue(ue(s, 0), h.max_num_ref_frames as nat)
}

/// The sequence parameter set.
#[verifier::opaque]
pub open spec fn sps_bits(h: StreamHeader) -> Seq<bool> {
    with_trailing_bits(sps_vui(sps_frame(sps_profile(nal_header(7), h), h), h))
}

/// The picture parameter set: CABAC, deblocking control, and the 8x8 transform
/// where the profile is High.
#[verifier::opaque]
pub open spec fn pps_bits(h: StreamHeader) -> Seq<bool> {
    let s = u(u(ue(ue(nal_header(8), 0), 0), 1, 1), 0, 1);
    let s = ue(ue(ue(s, 0), 0), 0);
    let s = u(u(s, 0, 1), 0, 2);
    let s = se(se(se(s, h.pic_init_qp - 26), 0), 0);
    let s = u(u(u(s, 1, 1), 0, 1), 0, 1);
    let transform: nat = if h.high_profile {
        1
    } else {
        0
    };
    let s = se(u(u(s, transform, 1), 0, 1), 0);
    with_trailing_bits(s)
}

/// The header of the one slice that a picture consists of.
#[verifier::opaque]
pub open spec fn slice_bits(is_idr: bool, frame_num: u16, idr_pic_id: u32, poc_lsb: u8) -> Seq<
    bool,
> {
    let s = nal_header(if is_idr {
        5
    } else {
        1
    });
    let s = ue(
        ue(
            ue(s, 0),
            if is_idr {
                7
            } else {
                5
            },
        ),
        0,
    );
    let s = u(s, frame_num as nat, 8);
    let s = if is_idr {
        ue(s, (idr_pic_id % 0x1_0000) as nat)
    } else {
        s
    };
    let s = u(s, poc_lsb as nat, 8);
    let s = if is_idr {
        u(u(s, 0, 1), 0, 1)
    } else {
        ue(u(u(u(s, 0, 1), 0, 1), 0, 1), 0)
    };
    se(se(ue(se(s, 0), 0), 0), 0)
}

/// A NAL unit as it stands in a byte stream: the start code, then the guarded
/// bytes.
pub open spec fn annex_b(unit: Seq<bool>) -> Seq<u8> {
    start_code() + escape(pack(pad(unit)))
}

/// The four-byte start code.
pub open spec fn start_code() -> Seq<u8> {
    seq![0u8, 0u8, 0u8, 1u8]
}

impl StreamHeader {
    /// The values that the parameter sets can carry.
    pub open spec fn wf(&self) -> bool {
        &&& self.width > 0
        &&& self.height > 0
        &&& self.fps * 2 <= u32::MAX
        &&& self.max_num_ref_frames < u32::MAX
    }
}

/// Cutting what the cropping fields say from the coded size leaves the picture
/// size, for every even size.
pub proof fn cropping_restores_the_picture_size(n: nat)
    requires
        n % 2 == 0,
    ensures
        macroblocks(n) * 16 - 2 * crop_steps(n) == n,
        macroblocks(n) * 16 >= n,
        n % 16 == 0 <==> crop_steps(n) == 0,
{
}

/// `n` sixteenths, rounded up.
pub fn div_ceil_16(n: u32) -> (r: u32)
    ensures
        r == macroblocks(n as nat),
{
    if n % 16 == 0 {
        n / 16
    } else {
        n / 16 + 1
    }
}

fn crop(n: u32) -> (r: u32)
    ensures
        r == crop_steps(n as nat),
        r < 8,
{
    if n % 16 == 0 {
        0
    } else {
        (16 - n % 16) / 2
    }
}

fn nal_writer(nal_unit_type: u32) -> (bs: BitWriter)
    ensures
        bs.wf(),
        bs@ == nal_header(nal_unit_type as nat),
{
    let mut bs = BitWriter::new();
    bs.write_bits(0, 1);
    bs.write_bits(3, 2);
    bs.write_bits(nal_unit_type, 5);
    bs
}

fn push_start_code(buf: &mut Vec<u8>)
    ensures
        final(buf)@ == old(buf)@ + start_code(),
{
    buf.push(0);
    buf.push(0);
    buf.push(0);
    buf.push(1);
    assert(buf@ =~= old(buf)@ + start_code());
}

fn push_unit(buf: &mut Vec<u8>, unit: BitWriter)
    requires
        unit.wf(),
    ensures
        final(buf)@ == old(buf)@ + annex_b(unit@),
{
    push_start_code(buf);
    let mut bytes = unit.finish_with_emulation_prevention();
    buf.append(&mut bytes);
    assert(buf@ =~= old(buf)@ + annex_b(unit@));
}

fn write_sps_profile(bs: &mut BitWriter, h: &StreamHeader)
    requires
        old(bs).wf(),
    ensures
        final(bs).wf(),
        final(bs)@ == sps_profile(old(bs)@, *h),
{
    let profile_idc: u32 = if h.high_profile {
        PROFILE_IDC_HIGH
    } else {
        PROFILE_IDC_MAIN
    };
    bs.write_bits(profile_idc, 8);
    bs.write_bits(0, 8);
    bs.write_bits(h.level_idc as u32, 8);
    bs.write_ue(0);
    if h.high_profile {
        bs.write_ue(1);  // chroma_format_idc
        bs.write_ue(0);  // bit_depth_luma_minus8
        bs.write_ue(0);  // bit_depth_chroma_minus8
        bs.write_bits(0, 1);  // qpprime_y_zero_transform_bypass_flag
        bs.write_bits(0, 1);  // seq_scaling_matrix_present_flag
    }
}

fn write_sps_frame(bs: &mut BitWriter, h: &StreamHeader)
    requires
        old(bs).wf(),
        h.wf(),
    ensures
        final(bs).wf(),
        final(bs)@ == sps_frame(old(bs)@, *h),
{
    bs.write_ue(4);  // log2_max_frame_num_minus4
    bs.write_ue(0);  // pic_order_cnt_type
    bs.write_ue(4);  // log2_max_pic_order_cnt_lsb_minus4
    bs.write_ue(h.max_num_ref_frames);
    bs.write_bits(0, 1);  // gaps_in_frame_num_value_allowed_flag
    bs.write_ue(div_ceil_16(h.width) - 1);
    bs.write_ue(div_ceil_16(h.height) - 1);
    bs.write_bits(1, 1);  // frame_mbs_only_flag
    bs.write_bits(1, 1);  // direct_8x8_inference_flag
    if h.width % 16 != 0 || h.height % 16 != 0 {
        bs.write_bits(1, 1);
        bs.write_ue(0);
        bs.write_ue(crop(h.width));
        bs.write_ue(0);
        bs.write_ue(crop(h.height));
    } else {
        bs.write_bits(0, 1);
    }
}

fn write_sps_vui(bs: &mut BitWriter, h: &StreamHeader)
    requires
        old(bs).wf(),
        h.wf(),
    ensures
        final(bs).wf(),
        final(bs)@ == sps_vui(old(bs)@, *h),
{
    bs.write_bits(1, 1);  // vui_parameters_present_flag
    bs.write_bits(0, 1);  // aspect_ratio_info_present_flag
    bs.write_bits(0, 1);  // overscan_info_present_flag
    bs.write_bits(1, 1);  // video_signal_type_present_flag
    bs.write_bits(5, 3);  // video_format: unspecified
    bs.write_bits(1, 1);  // video_full_range_flag
    bs.write_bits(1, 1);  // colour_description_present_flag
    bs.write_bits(1, 8);  // colour_primaries: BT.709
    bs.write_bits(1, 8);  // transfer_characteristics: BT.709
    bs.write_bits(1, 8);  // matrix_coefficients: BT.709
    bs.write_bits(0, 1);  // chroma_loc_info_present_flag
    bs.write_bits(1, 1);  // timing_info_present_flag
    bs.write_bits(1, 32);  // num_units_in_tick
    bs.write_bits(h.fps * 2, 32);  // time_scale
    bs.write_bits(0, 1);  // fixed_frame_rate_flag
    bs.write_bits(0, 1);  // nal_hrd_parameters_present_flag
    bs.write_bits(0, 1);  // vcl_hrd_parameters_present_flag
    bs.write_bits(0, 1);  // pic_struct_present_flag
    bs.write_bits(1, 1);  // bitstream_restriction_flag
    bs.write_bits(1, 1);  // motion_vectors_over_pic_boundaries_flag
    bs.write_ue(0);
    bs.write_ue(0);
    bs.write_ue(16);
    bs.write_ue(16);
    bs.write_ue(0);  // max_num_reorder_frames
    bs.write_ue(h.max_num_ref_frames);  // max_dec_frame_buffering
}

fn sps_writer(h: &StreamHeader) -> (bs: BitWriter)
    requires
        h.wf(),
    ensures
        bs.wf(),
        bs@ == sps_bits(*h),
{
    reveal(sps_bits);
    let mut bs = nal_writer(7);
    write_sps_profile(&mut bs, h);
    write_sps_frame(&mut bs, h);
    write_sps_vui(&mut bs, h);
    bs.write_rbsp_trailing_bits();
    bs
}

fn pps_writer(h: &StreamHeader) -> (bs: BitWriter)
    ensures
        bs.wf(),
        bs@ == pps_bits(*h),
{
    reveal(pps_bits);
    let mut bs = nal_writer(8);
    bs.write_ue(0);  // pic_parameter_set_id
    bs.write_ue(0);  // seq_parameter_set_id
    bs.write_bits(1, 1);  // entropy_coding_mode_flag (CABAC)
    bs.write_bits(0, 1);  // bottom_field_pic_order_in_frame_present_flag
    bs.write_ue(0);  // num_slice_groups_minus1
    bs.write_ue(0);  // num_ref_idx_l0_default_active_minus1
    bs.write_ue(0);  // num_ref_idx_l1_default_active_minus1
    bs.write_bits(0, 1);  // weighted_pred_flag
    bs.write_bits(0, 2);  // weighted_bipred_idc
    bs.write_se(h.pic_init_qp as i32 - 26);  // pic_init_qp_minus26
    bs.write_se(0);  // pic_init_qs_minus26
    bs.write_se(0);  // chroma_qp_index_offset
    bs.write_bits(1, 1);  // deblocking_filter_control_present_flag
    bs.write_bits(0, 1);  // constrained_intra_pred_flag
    bs.write_bits(0, 1);  // redundant_pic_cnt_present_flag
    let transform: u32 = if h.high_profile {
        1
    } else {
        0
    };
    bs.write_bits(transform, 1);  // transform_8x8_mode_flag
    bs.write_bits(0, 1);  // pic_scaling_matrix_present_flag
    bs.write_se(0);  // second_chroma_qp_index_offset
    bs.write_rbsp_trailing_bits();
    bs
}

/// The sequence and picture parameter sets as a byte stream.
pub fn parameter_sets(h: &StreamHeader) -> (buf: Vec<u8>)
    requires
        h.wf(),
    ensures
        buf@ == annex_b(sps_bits(*h)) + annex_b(pps_bits(*h)),
{
    let mut buf: Vec<u8> = Vec::new();
    push_unit(&mut buf, sps_writer(h));
    push_unit(&mut buf, pps_writer(h));
    assert(buf@ =~= annex_b(sps_bits(*h)) + annex_b(pps_bits(*h)));
    buf
}

/// The slice header as a byte stream. Its last byte is filled up with zero
/// bits.
pub fn slice_header(is_idr: bool, frame_num: u16, idr_pic_id: u32, poc_lsb: u8) -> (buf: Vec<u8>)
    ensures
        buf@ == annex_b(slice_bits(is_idr, frame_num, idr_pic_id, poc_lsb)),
{
    reveal(slice_bits);
    let mut bs = nal_writer(
        if is_idr {
            5
        } else {
            1
        },
    );
    bs.write_ue(0);  // first_mb_in_slice
    bs.write_ue(
        if is_idr {
            7
        } else {
            5
        },
    );  // slice_type: all-I / all-P
    bs.write_ue(0);  // pic_parameter_set_id
    bs.write_bits(frame_num as u32, 8);  // frame_num
    if is_idr {
        bs.write_ue(idr_pic_id % 0x1_0000);  // idr_pic_id
    }
    bs.write_bits(poc_lsb as u32, 8);  // pic_order_cnt_lsb
    if is_idr {
        bs.write_bits(0, 1);  // no_output_of_prior_pics_flag
        bs.write_bits(0, 1);  // long_term_reference_flag
    } else {
        bs.write_bits(0, 1);  // num_ref_idx_active_override_flag
        bs.write_bits(0, 1);  // ref_pic_list_modification_flag_l0
        bs.write_bits(0, 1);  // adaptive_ref_pic_marking_mode_flag
        bs.write_ue(0);  // cabac_init_idc
    }
    bs.write_se(0);  // slice_qp_delta
    bs.write_ue(0);  // disable_deblocking_filter_idc
    bs.write_se(0);  // slice_alpha_c0_offset_div2
    bs.write_se(0);  // slice_beta_offset_div2
    let mut buf: Vec<u8> = Vec::new();
    push_unit(&mut buf, bs);
    assert(buf@ =~= annex_b(slice_bits(is_idr, frame_num, idr_pic_id, poc_lsb)));
    buf
}

} // verus!
