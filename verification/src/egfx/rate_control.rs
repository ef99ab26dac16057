//! How the requested quality and bitrate become driver settings.
use vstd::prelude::*;

verus! {

/// How an encoder spends bits.
#[derive(Clone, Copy, Debug, PartialEq, Eq, Structural)]
pub enum H264RateControl {
    Vbr,
    Cqp,
}

/// Variable bitrate, as VA-API numbers it.
pub const VA_RC_VBR: u32 = 4;

/// Constant quantiser, as VA-API numbers it.
pub const VA_RC_CQP: u32 = 16;

/// The quantiser that parameter sets start from unless one is pinned.
pub const H264_DEFAULT_PIC_INIT_QP: u8 = 26;

/// The coarsest quantiser that H.264 knows.
pub const H264_MAX_QP: u8 = 51;

/// What the driver is told about rate control.
#[derive(Clone, Copy, Debug, PartialEq, Eq, Structural)]
pub struct VaapiRateControlPolicy {
    pub config_mode: u32,
    pub pic_init_qp: u8,
    pub bits_per_second: u32,
    pub target_percentage: u32,
    pub initial_qp: u32,
    pub min_qp: u32,
    pub rc_flags: u32,
    pub max_qp: u32,
}

/// `quality` as a quantiser, within the range that H.264 knows.
pub open spec fn clamped_qp(quality: u8) -> u8 {
    if quality <= H264_MAX_QP {
        quality
    } else {
        H264_MAX_QP
    }
}

/// Variable bitrate follows the bitrate and leaves the quantiser to the driver;
/// constant quantiser pins it and sets no bitrate.
pub open spec fn rate_control_policy(
    bitrate: u32,
    quality: u8,
    rate_control: H264RateControl,
) -> VaapiRateControlPolicy {
    let qp = clamped_qp(quality);
    match rate_control {
        H264RateControl::Vbr => VaapiRateControlPolicy {
            config_mode: VA_RC_VBR,
            pic_init_qp: H264_DEFAULT_PIC_INIT_QP,
            bits_per_second: bitrate,
            target_percentage: 100,
            initial_qp: 0,
            min_qp: 0,
            rc_flags: 0,
            max_qp: 0,
        },
        H264RateControl::Cqp => VaapiRateControlPolicy {
            config_mode: VA_RC_CQP,
            pic_init_qp: qp,
            bits_per_second: 0,
            target_percentage: 100,
            initial_qp: qp as u32,
            min_qp: qp as u32,
            rc_flags: 2,
            max_qp: qp as u32,
        },
    }
}

/// The driver settings for a bitrate, a quality and a rate control.
pub fn vaapi_rate_control_policy(bitrate: u32, quality: u8, rate_control: H264RateControl) -> (r:
    VaapiRateControlPolicy)
    ensures
        r == rate_control_policy(bitrate, quality, rate_control),
{
    let qp: u8 = if quality <= H264_MAX_QP {
        quality
    } else {
        H264_MAX_QP
    };
    match rate_control {
        H264RateControl::Vbr => VaapiRateControlPolicy {
            config_mode: VA_RC_VBR,
            pic_init_qp: H264_DEFAULT_PIC_INIT_QP,
            bits_per_second: bitrate,
            target_percentage: 100,
            initial_qp: 0,
            min_qp: 0,
            rc_flags: 0,
            max_qp: 0,
        },
        H264RateControl::Cqp => VaapiRateControlPolicy {
            config_mode: VA_RC_CQP,
            pic_init_qp: qp,
            bits_per_second: 0,
            target_percentage: 100,
            initial_qp: qp as u32,
            min_qp: qp as u32,
            rc_flags: 2,
            max_qp: qp as u32,
        },
    }
}

/// Whatever is asked for, the quantisers that reach the driver stay in the range
/// that H.264 knows, and the initial one lies between the bounds.
pub proof fn quantisers_stay_in_range(bitrate: u32, quality: u8, rate_control: H264RateControl)
    ensures
        ({
            let p = rate_control_policy(bitrate, quality, rate_control);
            &&& p.pic_init_qp <= H264_MAX_QP
            &&& p.min_qp <= p.initial_qp <= p.max_qp <= H264_MAX_QP
        }),
{
}

/// The mode that a driver is configured with is the one that is asked for, and decides
/// what it is told: a bitrate and no quantiser, or a quantiser and no bitrate.
pub proof fn each_mode_tells_its_own(bitrate: u32, quality: u8)
    ensures
        ({
            let p = rate_control_policy(bitrate, quality, H264RateControl::Vbr);
            &&& p.config_mode == 4
            &&& p.bits_per_second == bitrate
            &&& p.initial_qp == 0 && p.min_qp == 0 && p.max_qp == 0 && p.rc_flags == 0
            &&& p.pic_init_qp == 26
            &&& p.target_percentage == 100
        }),
        ({
            let p = rate_control_policy(bitrate, quality, H264RateControl::Cqp);
            &&& p.config_mode == 16
            &&& p.bits_per_second == 0
            &&& p.initial_qp == p.min_qp && p.min_qp == p.max_qp && p.max_qp == p.pic_init_qp
            &&& quality <= 51 ==> p.pic_init_qp == quality
            &&& quality > 51 ==> p.pic_init_qp == 51
            &&& p.rc_flags == 2
            &&& p.target_percentage == 100
        }),
{
}

} // verus!
