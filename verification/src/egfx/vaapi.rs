//! VA-API H.264 hardware encoder for Intel/AMD GPUs.
//!
//! The encoder decides what each frame is, which pooled surface and buffer it
//! takes, what it refers to and what the driver is told. Driver calls are made
//! by whoever owns the display: `encode` hands out a plan of the frame and goes
//! on from what became of it.
use vstd::prelude::*;

use super::device::{
    best_profile, can_encode_slices, select_h264_profile, DeviceError, H264Profile,
    VA_ENTRYPOINT_ENC_SLICE,
};
use super::h264::{extract_sps_pps, sps_pps_of};
use super::headers::{
    annex_b, div_ceil_16, macroblocks, parameter_sets, pps_bits, slice_bits, slice_header,
    sps_bits, StreamHeader,
};
use super::rate_control::{
    rate_control_policy, vaapi_rate_control_policy, H264RateControl, VaapiRateControlPolicy,
};
use super::reference::{
    no_references, DpbEntry, VaapiEncodeRole, VaapiReferenceMode, VaapiReferenceState,
};

verus! {

/// How many surfaces pictures are uploaded to in turn.
pub const INPUT_SURFACE_POOL_SIZE: usize = 3;

/// How many buffers coded frames are read from in turn.
pub const CODED_BUFFER_COUNT: usize = 3;

/// A slice without references, as VA-API numbers it.
pub const SLICE_TYPE_I: u8 = 2;

/// A slice that refers to one picture, as VA-API numbers it.
pub const SLICE_TYPE_P: u8 = 0;

/// A plain sequence starts anew after this many frames.
pub const IDR_INTERVAL: u32 = 30;

/// The number of no buffer.
pub const VA_INVALID_ID: u32 = 0xffff_ffff;

/// The number of no surface.
pub const VA_INVALID_SURFACE: u32 = 0xffff_ffff;

/// The flag of a slot that holds no picture.
pub const VA_PICTURE_H264_INVALID: u32 = 1;

/// The flag of a picture that is kept for reference.
pub const VA_PICTURE_H264_SHORT_TERM_REFERENCE: u32 = 8;

/// How many pictures the driver's reference list holds.
pub const REFERENCE_FRAME_SLOTS: usize = 16;

/// How many pictures a slice's reference list holds.
pub const REF_PIC_LIST_SLOTS: usize = 32;

/// A picture as the driver knows it.
#[derive(Clone, Copy, Debug, PartialEq, Eq, Structural)]
pub struct PictureH264 {
    pub picture_id: u32,
    pub frame_idx: u32,
    pub flags: u32,
    pub top_field_order_cnt: i32,
    pub bottom_field_order_cnt: i32,
}

/// Sequence parameters. Every driver field that is not named here is zero.
#[derive(Clone, Copy, Debug, PartialEq, Eq, Structural)]
pub struct SequenceParams {
    pub level_idc: u8,
    pub intra_period: u32,
    pub intra_idr_period: u32,
    pub ip_period: u32,
    pub bits_per_second: u32,
    pub max_num_ref_frames: u32,
    pub picture_width_in_mbs: u16,
    pub picture_height_in_mbs: u16,
    pub seq_fields: u32,
    pub vui_parameters_present_flag: u8,
    pub vui_fields: u32,
    pub sar_width: u32,
    pub sar_height: u32,
    pub num_units_in_tick: u32,
    pub time_scale: u32,
}

/// Picture parameters. Every driver field that is not named here is zero.
#[derive(Debug, PartialEq, Eq)]
pub struct PictureParams {
    pub curr_pic: PictureH264,
    pub reference_frames: Vec<PictureH264>,
    pub coded_buf: u32,
    pub frame_num: u16,
    pub pic_init_qp: u8,
    pub pic_fields: u32,
}

/// Slice parameters. Every driver field that is not named here is zero.
#[derive(Debug, PartialEq, Eq)]
pub struct SliceParams {
    pub num_macroblocks: u32,
    pub macroblock_info: u32,
    pub slice_type: u8,
    pub idr_pic_id: u16,
    pub pic_order_cnt_lsb: u16,
    pub num_ref_idx_active_override_flag: u8,
    pub ref_pic_list_0: Vec<PictureH264>,
    pub ref_pic_list_1: Vec<PictureH264>,
}

/// The three rate control buffers: rate, reference decoder, and frame rate.
/// Every driver field that is not named here is zero.
#[derive(Clone, Copy, Debug, PartialEq, Eq, Structural)]
pub struct RateControlParams {
    pub bits_per_second: u32,
    pub target_percentage: u32,
    pub window_size: u32,
    pub initial_qp: u32,
    pub min_qp: u32,
    pub rc_flags: u32,
    pub max_qp: u32,
    pub hrd_initial_buffer_fullness: u32,
    pub hrd_buffer_size: u32,
    pub framerate: u32,
}

/// A frame as a picture: both fields have its picture order count.
pub open spec fn picture(id: u32, frame_idx: u32, flags: u32, poc: i32) -> PictureH264 {
    PictureH264 {
        picture_id: id,
        frame_idx,
        flags,
        top_field_order_cnt: poc,
        bottom_field_order_cnt: poc,
    }
}

/// The slot of a reference list that holds nothing.
pub open spec fn invalid_picture() -> PictureH264 {
    picture(VA_INVALID_SURFACE, 0, VA_PICTURE_H264_INVALID, 0)
}

/// A recorded picture as a short-term reference.
pub open spec fn reference_picture(entry: DpbEntry) -> PictureH264 {
    picture(
        entry.surface_id,
        entry.frame_num as u32,
        VA_PICTURE_H264_SHORT_TERM_REFERENCE,
        entry.poc,
    )
}

/// A reference list: the reference first, if there is one, and nothing behind it.
pub open spec fn reference_list(slots: nat, reference: Option<DpbEntry>) -> Seq<PictureH264> {
    Seq::new(
        slots,
        |i: int|
            match reference {
                Some(entry) => if i == 0 {
                    reference_picture(entry)
                } else {
                    invalid_picture()
                },
                None => invalid_picture(),
            },
    )
}

/// A picture from its parts.
pub fn picture_h264(
    picture_id: u32,
    frame_idx: u32,
    flags: u32,
    top_field_order_cnt: i32,
    bottom_field_order_cnt: i32,
) -> (r: PictureH264)
    ensures
        r == (PictureH264 {
            picture_id,
            frame_idx,
            flags,
            top_field_order_cnt,
            bottom_field_order_cnt,
        }),
{
    PictureH264 { picture_id, frame_idx, flags, top_field_order_cnt, bottom_field_order_cnt }
}

fn make_reference_list(slots: usize, reference: Option<DpbEntry>) -> (r: Vec<PictureH264>)
    requires
        slots > 0,
    ensures
        r@ == reference_list(slots as nat, reference),
{
    let mut list: Vec<PictureH264> = Vec::new();
    match reference {
        Some(entry) => {
            list.push(
                picture_h264(
                    entry.surface_id,
                    entry.frame_num as u32,
                    VA_PICTURE_H264_SHORT_TERM_REFERENCE,
                    entry.poc,
                    entry.poc,
                ),
            );
        },
        None => {
            list.push(picture_h264(VA_INVALID_SURFACE, 0, VA_PICTURE_H264_INVALID, 0, 0));
        },
    }
    while list.len() < slots
        invariant
            1 <= list.len() <= slots,
            forall|i: int|
                0 <= i < list@.len() ==> list@[i] == reference_list(slots as nat, reference)[i],
        decreases slots - list.len(),
    {
        list.push(picture_h264(VA_INVALID_SURFACE, 0, VA_PICTURE_H264_INVALID, 0, 0));
    }
    assert(list@ =~= reference_list(slots as nat, reference));
    list
}

/// Sequence flags: 4:2:0 (bit 0), frames only (2), direct 8x8 inference (5),
/// eight-bit frame numbers (6), and an eight-bit picture order count (12).
pub open spec fn seq_fields() -> u32 {
    (1 + 1 * 4 + 1 * 32 + 4 * 64 + 0 * 1024 + 4 * 4096) as u32
}

/// Usability flags: timing (bit 1), bitstream restriction (2), the two motion
/// vector length limits (3 and 8), and vectors over picture boundaries (15).
pub open spec fn vui_fields() -> u32 {
    (1 * 2 + 1 * 4 + 16 * 8 + 16 * 256 + 1 * 32768) as u32
}

/// The sequence flags.
pub fn h264_seq_fields_value() -> (r: u32)
    ensures
        r == seq_fields(),
{
    1 + 4 + 32 + 4 * 64 + 4 * 4096
}

/// The usability flags.
pub fn h264_vui_fields_value() -> (r: u32)
    ensures
        r == vui_fields(),
{
    2 + 4 + 16 * 8 + 16 * 256 + 32768
}

/// Picture flags of a frame.
pub open spec fn pic_fields(is_idr: bool, transform_8x8: bool) -> u32 {
    ((if is_idr {
        1int
    } else {
        0
    }) + 1 * 2 + 1 * 8 + (if transform_8x8 {
        256int
    } else {
        0
    }) + 1 * 512) as u32
}

/// Picture flags: IDR (bit 0), reference (1), CABAC (3), the 8x8 transform (8)
/// and deblocking control (9).
pub fn h264_pic_fields_value(is_idr: bool, transform_8x8_mode: bool) -> (r: u32)
    ensures
        r == pic_fields(is_idr, transform_8x8_mode),
{
    let idr: u32 = if is_idr {
        1
    } else {
        0
    };
    let transform: u32 = if transform_8x8_mode {
        256
    } else {
        0
    };
    idr + 2 + 8 + transform + 512
}

/// A four-character code: the tag's bytes from the least significant up.
pub fn fourcc(tag: &[u8; 4]) -> (r: u32)
    ensures
        r == tag[0] + tag[1] * 0x100 + tag[2] * 0x1_0000 + tag[3] * 0x100_0000,
{
    tag[0] as u32 + tag[1] as u32 * 0x100 + tag[2] as u32 * 0x1_0000 + tag[3] as u32 * 0x100_0000
}

/// The attribute value of a driver that does not answer a query.
pub const VA_ATTRIB_NOT_SUPPORTED: u32 = 0x8000_0000;

/// The drivers' bit for packed sequence headers.
pub const VA_ENC_PACKED_HEADER_SEQUENCE: u32 = 1;

/// The drivers' bit for packed slice headers.
pub const VA_ENC_PACKED_HEADER_SLICE: u32 = 4;

/// A driver call on the way to an encoder.
#[derive(Clone, Copy, Debug, PartialEq, Eq, Structural)]
pub enum SetupStep {
    OpenDisplay,
    QueryProfiles,
    QueryEntrypoints,
    CreateConfig,
    CreateInputSurfaces,
    CreateReconSurfaces,
    CreateContext,
    QueryImageFormats,
    /// One of the coded buffers, by its position.
    CreateCodedBuffer(usize),
}

/// A driver call on the way to a coded frame, in the order of the calls.
#[derive(Clone, Copy, Debug, PartialEq, Eq, Structural)]
pub enum EncodeStage {
    Upload,
    SequenceBuffer,
    RateControlBuffer,
    HrdBuffer,
    FrameRateBuffer,
    PackedSequenceParam,
    PackedSequenceData,
    PictureBuffer,
    SliceBuffer,
    PackedSliceParam,
    PackedSliceData,
    Render,
    ReadCoded,
}

/// Why there is no encoder or no frame.
#[derive(Clone, Copy, Debug, PartialEq, Eq, Structural)]
pub enum VaapiError {
    InvalidDimensions { width: u32, height: u32 },
    /// No render device can be used.
    Device(DeviceError),
    ProfileNotSupported,
    EntrypointNotSupported,
    Nv12NotSupported,
    Setup(SetupStep),
    ImportFailed,
    Encode(EncodeStage),
    /// A picture from another device could not be rendered.
    RenderImported,
}

/// What became of a planned frame.
#[derive(Debug, PartialEq, Eq)]
pub enum SubmitOutcome {
    Failed(EncodeStage),
    Coded(Vec<u8>),
}

/// What an encoder is asked for.
#[derive(Clone, Copy, Debug, PartialEq, Eq, Structural)]
pub struct EncoderSettings {
    pub width: u32,
    pub height: u32,
    pub bitrate: u32,
    pub fps: u32,
    pub quality: u8,
    pub rate_control: H264RateControl,
}

/// What the driver answered while an encoder was set up, `None` for a call that
/// failed or was not made because an earlier one failed.
#[derive(Debug)]
pub struct DriverReport {
    /// How the search for a render device ended.
    pub device: Result<(), DeviceError>,
    pub opened: bool,
    pub profiles: Option<Vec<i32>>,
    pub entrypoints: Option<Vec<u32>>,
    pub configured: bool,
    pub packed_headers: Option<u32>,
    pub input_surfaces: Option<Vec<u32>>,
    pub recon_surfaces: Option<Vec<u32>>,
    pub context_created: bool,
    pub image_formats: Option<Vec<u32>>,
    /// The coded buffers that were created, up to the first that could not be.
    pub coded_buffers: Vec<u32>,
}

/// The position of a stage in the order of the calls.
pub open spec fn rank(stage: EncodeStage) -> int {
    match stage {
        EncodeStage::Upload => 0,
        EncodeStage::SequenceBuffer => 1,
        EncodeStage::RateControlBuffer => 2,
        EncodeStage::HrdBuffer => 3,
        EncodeStage::FrameRateBuffer => 4,
        EncodeStage::PackedSequenceParam => 5,
        EncodeStage::PackedSequenceData => 6,
        EncodeStage::PictureBuffer => 7,
        EncodeStage::SliceBuffer => 8,
        EncodeStage::PackedSliceParam => 9,
        EncodeStage::PackedSliceData => 10,
        EncodeStage::Render => 11,
        EncodeStage::ReadCoded => 12,
    }
}

fn stage_rank(stage: EncodeStage) -> (r: u8)
    ensures
        r == rank(stage),
{
    match stage {
        EncodeStage::Upload => 0,
        EncodeStage::SequenceBuffer => 1,
        EncodeStage::RateControlBuffer => 2,
        EncodeStage::HrdBuffer => 3,
        EncodeStage::FrameRateBuffer => 4,
        EncodeStage::PackedSequenceParam => 5,
        EncodeStage::PackedSequenceData => 6,
        EncodeStage::PictureBuffer => 7,
        EncodeStage::SliceBuffer => 8,
        EncodeStage::PackedSliceParam => 9,
        EncodeStage::PackedSliceData => 10,
        EncodeStage::Render => 11,
        EncodeStage::ReadCoded => 12,
    }
}

impl SubmitOutcome {
    /// Whether the call of `stage` was made.
    pub open spec fn reached(&self, stage: EncodeStage) -> bool {
        match self {
            SubmitOutcome::Failed(at) => rank(*at) >= rank(stage),
            SubmitOutcome::Coded(_) => true,
        }
    }

    /// Whether the call of `stage` succeeded.
    pub open spec fn passed(&self, stage: EncodeStage) -> bool {
        match self {
            SubmitOutcome::Failed(at) => rank(*at) > rank(stage),
            SubmitOutcome::Coded(_) => true,
        }
    }

    fn has_reached(&self, stage: EncodeStage) -> (r: bool)
        ensures
            r == self.reached(stage),
    {
        match self {
            SubmitOutcome::Failed(at) => stage_rank(*at) >= stage_rank(stage),
            SubmitOutcome::Coded(_) => true,
        }
    }

    fn has_passed(&self, stage: EncodeStage) -> (r: bool)
        ensures
            r == self.passed(stage),
    {
        match self {
            SubmitOutcome::Failed(at) => stage_rank(*at) > stage_rank(stage),
            SubmitOutcome::Coded(_) => true,
        }
    }
}

impl EncoderSettings {
    /// Sizes that can be encoded: even and not empty.
    pub open spec fn dimensions_ok(&self) -> bool {
        self.width > 0 && self.height > 0 && self.width % 2 == 0 && self.height % 2 == 0
    }

    /// A picture whose size in bytes the driver can be told.
    pub open spec fn size_fits(&self) -> bool {
        self.width * self.height * 3 <= u32::MAX
    }

    /// A frame rate whose ticks and macroblock rate the headers can carry.
    pub open spec fn rate_fits(&self) -> bool {
        &&& self.fps * 2 <= u32::MAX
        &&& (self.width / 16) * (self.height / 16) * self.fps <= u32::MAX
    }

    /// How many macroblocks the encoder handles in a second.
    pub open spec fn macroblock_rate(&self) -> int {
        (self.width as int / 16) * (self.height as int / 16) * self.fps
    }

    /// The lowest of the offered levels whose macroblock rate is enough.
    pub open spec fn level(&self) -> u8 {
        let rate = self.macroblock_rate();
        if rate <= 40500 {
            30
        } else if rate <= 108000 {
            31
        } else if rate <= 245760 {
            40
        } else if rate <= 589824 {
            41
        } else if rate <= 983040 {
            50
        } else {
            51
        }
    }

    /// The rate control that the driver is told.
    pub open spec fn policy(&self) -> VaapiRateControlPolicy {
        rate_control_policy(self.bitrate, self.quality, self.rate_control)
    }

    /// The size of an uncompressed NV12 picture.
    pub open spec fn coded_size(&self) -> int {
        self.width * self.height * 3 / 2
    }

    /// Refuses sizes that cannot be encoded.
    pub fn check_dimensions(&self) -> (r: Result<(), VaapiError>)
        ensures
            r == if self.dimensions_ok() {
                Ok::<(), VaapiError>(())
            } else {
                Err(VaapiError::InvalidDimensions { width: self.width, height: self.height })
            },
    {
        if self.width == 0 || self.height == 0 || self.width % 2 != 0 || self.height % 2 != 0 {
            Err(VaapiError::InvalidDimensions { width: self.width, height: self.height })
        } else {
            Ok(())
        }
    }

    /// The size of a coded buffer: that of an uncompressed NV12 picture.
    pub fn coded_buffer_size(&self) -> (r: usize)
        requires
            self.size_fits(),
        ensures
            r == self.coded_size(),
    {
        proof {
            lemma_area(self.width as int, self.height as int);
        }
        ((self.width * self.height * 3) / 2) as usize
    }

    /// The level for the size and the frame rate.
    pub fn get_h264_level(&self) -> (r: u8)
        requires
            self.rate_fits(),
        ensures
            r == self.level(),
    {
        proof {
            lemma_rate(self.width as int / 16, self.height as int / 16, self.fps as int);
        }
        if self.fps == 0 {
            assert(self.macroblock_rate() == 0) by (nonlinear_arith)
                requires
                    self.fps == 0,
            ;
            return 30;
        }
        let macroblocks_per_sec: u32 = (self.width / 16) * (self.height / 16) * self.fps;
        if macroblocks_per_sec <= 40500 {
            30
        } else if macroblocks_per_sec <= 108000 {
            31
        } else if macroblocks_per_sec <= 245760 {
            40
        } else if macroblocks_per_sec <= 589824 {
            41
        } else if macroblocks_per_sec <= 983040 {
            50
        } else {
            51
        }
    }
}

proof fn lemma_area(w: int, h: int)
    requires
        0 <= w,
        0 <= h,
        w * h * 3 <= u32::MAX,
    ensures
        0 <= w * h <= w * h * 3,
{
    assert(0 <= w * h) by (nonlinear_arith)
        requires
            0 <= w,
            0 <= h,
    ;
}

proof fn lemma_rate(w: int, h: int, fps: int)
    requires
        0 <= w,
        0 <= h,
        0 <= fps,
        w * h * fps <= u32::MAX,
    ensures
        fps > 0 ==> 0 <= w * h <= w * h * fps,
{
    assert(0 <= w * h) by (nonlinear_arith)
        requires
            0 <= w,
            0 <= h,
    ;
    if fps > 0 {
        assert(w * h <= w * h * fps) by (nonlinear_arith)
            requires
                0 <= w * h,
                fps >= 1,
        ;
    }
}

/// A frame as the driver is to encode it.
#[derive(Debug, PartialEq, Eq)]
pub struct FramePlan {
    pub is_idr: bool,
    pub input_surface: u32,
    pub coded_buffer: u32,
    pub frame_num: u16,
    pub poc: i32,
    pub sequence: Option<SequenceParams>,
    pub rate_control: Option<RateControlParams>,
    pub packed_sequence: Option<Vec<u8>>,
    pub picture: PictureParams,
    pub slice: SliceParams,
    pub packed_slice: Option<Vec<u8>>,
}

/// An NV12 buffer of another device, as it is imported.
#[derive(Clone, Copy, Debug, PartialEq, Eq, Structural)]
pub struct DmabufFrame {
    pub fd: i32,
    pub width: u32,
    pub height: u32,
    pub stride: u32,
    pub offset: u32,
    pub modifier: u64,
    pub uv_stride: u32,
    pub uv_offset: u32,
}

/// What the driver is told of an imported buffer: one object, and a layer for
/// each plane.
#[derive(Clone, Copy, Debug, PartialEq, Eq, Structural)]
pub struct PrimeSurface {
    pub fourcc: u32,
    pub width: u32,
    pub height: u32,
    pub fd: i32,
    pub size: u32,
    pub modifier: u64,
    pub y_offset: u32,
    pub y_pitch: u32,
    pub uv_offset: u32,
    pub uv_pitch: u32,
}

/// The code of the NV12 format.
pub const FOURCC_NV12: u32 = 0x3231_564e;

impl DmabufFrame {
    /// Where the luma plane ends.
    pub open spec fn y_end(&self) -> int {
        self.offset + self.height * self.stride
    }

    /// Where the chroma plane ends.
    pub open spec fn uv_end(&self) -> int {
        self.uv_offset + (self.height as int / 2) * self.uv_stride
    }

    /// Planes whose ends the driver can be told.
    pub open spec fn fits(&self) -> bool {
        self.y_end() <= u32::MAX && self.uv_end() <= u32::MAX
    }

    /// What the driver is told of the buffer.
    pub open spec fn prime(&self) -> PrimeSurface {
        PrimeSurface {
            fourcc: FOURCC_NV12,
            width: self.width,
            height: self.height,
            fd: self.fd,
            size: if self.y_end() >= self.uv_end() {
                self.y_end() as u32
            } else {
                self.uv_end() as u32
            },
            modifier: self.modifier,
            y_offset: self.offset,
            y_pitch: self.stride,
            uv_offset: self.uv_offset,
            uv_pitch: self.uv_stride,
        }
    }

    /// Describes the buffer to the driver; its size reaches the end of the plane
    /// that ends last.
    pub fn prime_surface(&self) -> (r: PrimeSurface)
        requires
            self.fits(),
        ensures
            r == self.prime(),
    {
        proof {
            assert(0 <= self.height * self.stride) by (nonlinear_arith);
            assert(0 <= (self.height as int / 2) * self.uv_stride) by (nonlinear_arith);
        }
        let y_end: u32 = self.offset + self.height * self.stride;
        let uv_end: u32 = self.uv_offset + (self.height / 2) * self.uv_stride;
        PrimeSurface {
            fourcc: fourcc(&[0x4e, 0x56, 0x31, 0x32]),
            width: self.width,
            height: self.height,
            fd: self.fd,
            size: if y_end >= uv_end {
                y_end
            } else {
                uv_end
            },
            modifier: self.modifier,
            y_offset: self.offset,
            y_pitch: self.stride,
            uv_offset: self.uv_offset,
            uv_pitch: self.uv_stride,
        }
    }
}

/// The encoder's state between frames. Surfaces and buffers are known by the
/// numbers that the driver gave them.
pub struct VaapiEncoder {
    pub input_surfaces: Vec<u32>,
    pub recon_surfaces: Vec<u32>,
    pub coded_buffers: Vec<u32>,
    pub dmabuf_input_surface: Option<u32>,
    pub current_input_surface: usize,
    pub current_recon_surface: usize,
    pub current_coded_buffer: usize,
    pub references: VaapiReferenceState,
    pub reference_mode: VaapiReferenceMode,
    pub cached_sps_pps: Option<Vec<u8>>,
    pub packed_sequence_required: bool,
    pub packed_slice_required: bool,
    pub idr_pic_id: u32,
    pub settings: EncoderSettings,
    pub frame_count: u64,
    pub force_idr: bool,
    pub profile: H264Profile,
}

/// The bytes that an optional buffer holds.
pub open spec fn bytes(v: Option<Vec<u8>>) -> Option<Seq<u8>> {
    match v {
        Some(b) => Some(b@),
        None => None,
    }
}

/// Whether a driver that answered `packed` wants the header of `bit` from us.
pub open spec fn packed_header_required(packed: Option<u32>, bit: u32) -> bool {
    packed is Some && packed->0 != VA_ATTRIB_NOT_SUPPORTED && packed->0 & bit != 0
}

impl DriverReport {
    /// The first thing that keeps an encoder from being set up, with pools of the
    /// sizes asked for.
    pub open spec fn obstacle(&self) -> Option<VaapiError> {
        if self.device is Err {
            Some(VaapiError::Device(self.device->Err_0))
        } else if !self.opened {
            Some(VaapiError::Setup(SetupStep::OpenDisplay))
        } else if self.profiles is None {
            Some(VaapiError::Setup(SetupStep::QueryProfiles))
        } else if best_profile(self.profiles->0@) is None {
            Some(VaapiError::ProfileNotSupported)
        } else if self.entrypoints is None {
            Some(VaapiError::Setup(SetupStep::QueryEntrypoints))
        } else if !self.entrypoints->0@.contains(VA_ENTRYPOINT_ENC_SLICE) {
            Some(VaapiError::EntrypointNotSupported)
        } else if !self.configured {
            Some(VaapiError::Setup(SetupStep::CreateConfig))
        } else if self.input_surfaces is None || self.input_surfaces->0@.len()
            != INPUT_SURFACE_POOL_SIZE {
            Some(VaapiError::Setup(SetupStep::CreateInputSurfaces))
        } else if self.recon_surfaces is None || self.recon_surfaces->0@.len() != 2 {
            Some(VaapiError::Setup(SetupStep::CreateReconSurfaces))
        } else if !self.context_created {
            Some(VaapiError::Setup(SetupStep::CreateContext))
        } else if self.image_formats is None {
            Some(VaapiError::Setup(SetupStep::QueryImageFormats))
        } else if !self.image_formats->0@.contains(FOURCC_NV12) {
            Some(VaapiError::Nv12NotSupported)
        } else if self.coded_buffers@.len() != CODED_BUFFER_COUNT {
            Some(
                VaapiError::Setup(
                    SetupStep::CreateCodedBuffer(self.coded_buffers@.len() as usize),
                ),
            )
        } else {
            None
        }
    }

    /// Whether the setup got as far as the coded buffers, whose size is that of a
    /// whole picture.
    pub open spec fn reaches_coded_buffers(&self) -> bool {
        match self.obstacle() {
            None | Some(VaapiError::Setup(SetupStep::CreateCodedBuffer(_))) => true,
            _ => false,
        }
    }
}

fn lists_format(formats: &[u32], wanted: u32) -> (r: bool)
    ensures
        r == formats@.contains(wanted),
{
    let mut i: usize = 0;
    while i < formats.len()
        invariant
            i <= formats.len(),
            forall|j: int| 0 <= j < i ==> formats@[j] != wanted,
        decreases formats.len() - i,
    {
        if formats[i] == wanted {
            return true;
        }
        i = i + 1;
    }
    false
}

fn wants_packed_header(packed: Option<u32>, bit: u32) -> (r: bool)
    ensures
        r == packed_header_required(packed, bit),
{
    match packed {
        Some(value) => value != VA_ATTRIB_NOT_SUPPORTED && value & bit != 0,
        None => false,
    }
}

impl VaapiEncoder {
    /// A valid size, and pool positions that lie in their pools.
    pub open spec fn wf(&self) -> bool {
        &&& self.settings.dimensions_ok()
        &&& self.settings.size_fits()
        &&& self.current_input_surface < self.input_surfaces@.len()
        &&& self.current_recon_surface < self.recon_surfaces@.len()
        &&& self.current_coded_buffer < self.coded_buffers@.len()
    }

    /// What never changes after the encoder is set up.
    pub open spec fn same_setup(&self, other: VaapiEncoder) -> bool {
        &&& self.input_surfaces@ == other.input_surfaces@
        &&& self.recon_surfaces@ == other.recon_surfaces@
        &&& self.coded_buffers@ == other.coded_buffers@
        &&& self.reference_mode == other.reference_mode
        &&& self.packed_sequence_required == other.packed_sequence_required
        &&& self.packed_slice_required == other.packed_slice_required
        &&& self.settings == other.settings
        &&& self.profile == other.profile
    }

    /// An encoder that has coded nothing yet.
    pub open spec fn is_fresh(
        &self,
        settings: EncoderSettings,
        mode: VaapiReferenceMode,
        report: DriverReport,
    ) -> bool {
        &&& Some(self.input_surfaces) == report.input_surfaces
        &&& Some(self.recon_surfaces) == report.recon_surfaces
        &&& self.coded_buffers == report.coded_buffers
        &&& self.dmabuf_input_surface is None
        &&& self.current_input_surface == 0
        &&& self.current_recon_surface == 0
        &&& self.current_coded_buffer == 0
        &&& self.references == no_references()
        &&& self.reference_mode == mode
        &&& self.cached_sps_pps is None
        &&& self.packed_sequence_required == packed_header_required(
            report.packed_headers,
            VA_ENC_PACKED_HEADER_SEQUENCE,
        )
        &&& self.packed_slice_required == packed_header_required(
            report.packed_headers,
            VA_ENC_PACKED_HEADER_SLICE,
        )
        &&& self.idr_pic_id == 0
        &&& self.settings == settings
        &&& self.frame_count == 0
        &&& self.force_idr
        &&& Some(self.profile) == best_profile(report.profiles->0@)
    }

    /// Sets up an encoder for a plain sequence from what the driver answered.
    pub fn new(settings: EncoderSettings, report: DriverReport) -> (r: Result<Self, VaapiError>)
        requires
            settings.dimensions_ok() && report.reaches_coded_buffers() ==> settings.size_fits(),
        ensures
            !settings.dimensions_ok() ==> r == Err::<VaapiEncoder, _>(
                VaapiError::InvalidDimensions { width: settings.width, height: settings.height },
            ),
            settings.dimensions_ok() ==> match report.obstacle() {
                Some(e) => r == Err::<VaapiEncoder, _>(e),
                None => r is Ok && r->Ok_0.wf() && r->Ok_0.is_fresh(
                    settings,
                    VaapiReferenceMode::Single,
                    report,
                ),
            },
    {
        Self::new_with_reference_mode(settings, VaapiReferenceMode::Single, report)
    }

    /// Sets up an encoder from what the driver answered. The dimensions are
    /// looked at before anything else.
    pub fn new_with_reference_mode(
        settings: EncoderSettings,
        reference_mode: VaapiReferenceMode,
        report: DriverReport,
    ) -> (r: Result<Self, VaapiError>)
        requires
            settings.dimensions_ok() && report.reaches_coded_buffers() ==> settings.size_fits(),
        ensures
            !settings.dimensions_ok() ==> r == Err::<VaapiEncoder, _>(
                VaapiError::InvalidDimensions { width: settings.width, height: settings.height },
            ),
            settings.dimensions_ok() ==> match report.obstacle() {
                Some(e) => r == Err::<VaapiEncoder, _>(e),
                None => r is Ok && r->Ok_0.wf() && r->Ok_0.is_fresh(
                    settings,
                    reference_mode,
                    report,
                ),
            },
    {
        if let Err(e) = settings.check_dimensions() {
            return Err(e);
        }
        if let Err(e) = report.device {
            return Err(VaapiError::Device(e));
        }
        if !report.opened {
            return Err(VaapiError::Setup(SetupStep::OpenDisplay));
        }
        let profile = match &report.profiles {
            None => return Err(VaapiError::Setup(SetupStep::QueryProfiles)),
            Some(list) => match select_h264_profile(list.as_slice()) {
                None => return Err(VaapiError::ProfileNotSupported),
                Some(profile) => profile,
            },
        };
        match &report.entrypoints {
            None => return Err(VaapiError::Setup(SetupStep::QueryEntrypoints)),
            Some(list) => {
                if !can_encode_slices(list.as_slice()) {
                    return Err(VaapiError::EntrypointNotSupported);
                }
            },
        }
        if !report.configured {
            return Err(VaapiError::Setup(SetupStep::CreateConfig));
        }
        let packed_sequence_required = wants_packed_header(
            report.packed_headers,
            VA_ENC_PACKED_HEADER_SEQUENCE,
        );
        let packed_slice_required = wants_packed_header(
            report.packed_headers,
            VA_ENC_PACKED_HEADER_SLICE,
        );
        let input_surfaces = match report.input_surfaces {
            None => return Err(VaapiError::Setup(SetupStep::CreateInputSurfaces)),
            Some(list) => list,
        };
        if input_surfaces.len() != INPUT_SURFACE_POOL_SIZE {
            return Err(VaapiError::Setup(SetupStep::CreateInputSurfaces));
        }
        let recon_surfaces = match report.recon_surfaces {
            None => return Err(VaapiError::Setup(SetupStep::CreateReconSurfaces)),
            Some(list) => list,
        };
        if recon_surfaces.len() != reference_mode.recon_surface_pool_size() {
            return Err(VaapiError::Setup(SetupStep::CreateReconSurfaces));
        }
        if !report.context_created {
            return Err(VaapiError::Setup(SetupStep::CreateContext));
        }
        match &report.image_formats {
            None => return Err(VaapiError::Setup(SetupStep::QueryImageFormats)),
            Some(list) => {
                if !lists_format(list.as_slice(), FOURCC_NV12) {
                    return Err(VaapiError::Nv12NotSupported);
                }
            },
        }
        let coded_buffers = report.coded_buffers;
        if coded_buffers.len() != CODED_BUFFER_COUNT {
            return Err(VaapiError::Setup(SetupStep::CreateCodedBuffer(coded_buffers.len())));
        }
        Ok(
            VaapiEncoder {
                input_surfaces,
                recon_surfaces,
                coded_buffers,
                dmabuf_input_surface: None,
                current_input_surface: 0,
                current_recon_surface: 0,
                current_coded_buffer: 0,
                references: VaapiReferenceState::default(),
                reference_mode,
                cached_sps_pps: None,
                packed_sequence_required,
                packed_slice_required,
                idr_pic_id: 0,
                settings,
                frame_count: 0,
                force_idr: true,
                profile,
            },
        )
    }

    /// Forces the next encoded frame to be an IDR (used after error recovery).
    pub fn force_idr(&mut self)
        ensures
            *final(self) == (VaapiEncoder { force_idr: true, ..*old(self) }),
    {
        self.force_idr = true;
    }
}

impl VaapiEncoder {
    /// A frame starts a new sequence where one was asked for, and at the fixed
    /// cadence of a plain sequence.
    pub open spec fn idr_due(&self) -> bool {
        self.force_idr || (self.reference_mode == VaapiReferenceMode::Single
            && self.frame_count % (IDR_INTERVAL as u64) == 0)
    }

    /// What the parameter sets of this encoder's stream say.
    pub open spec fn header(&self) -> StreamHeader {
        StreamHeader {
            high_profile: self.profile == H264Profile::High,
            level_idc: self.settings.level(),
            width: self.settings.width,
            height: self.settings.height,
            fps: self.settings.fps,
            max_num_ref_frames: 1,
            pic_init_qp: self.settings.policy().pic_init_qp,
        }
    }

    /// The parameter sets of this encoder's stream.
    pub open spec fn sps_pps(&self) -> Seq<u8> {
        annex_b(sps_bits(self.header())) + annex_b(pps_bits(self.header()))
    }

    /// The frame number of the next frame; it wraps at eight bits.
    pub open spec fn next_frame_num(&self) -> u16 {
        (self.frame_count % 256) as u16
    }

    /// The picture order count of the next frame: two per frame, wrapping at
    /// eight bits.
    pub open spec fn next_poc(&self) -> i32 {
        ((self.frame_count * 2) % 256) as i32
    }

    /// The IDR number that the next packed slice header carries.
    pub open spec fn next_idr_pic_id(&self) -> u32 {
        if self.idr_due() {
            if self.idr_pic_id == u32::MAX {
                0
            } else {
                (self.idr_pic_id + 1) as u32
            }
        } else {
            self.idr_pic_id
        }
    }

    /// The picture that the next frame refers to.
    pub open spec fn next_reference(&self) -> Option<DpbEntry> {
        if self.idr_due() {
            None
        } else {
            self.references.last
        }
    }

    /// The next frame as it is recorded for reference once it is coded.
    pub open spec fn next_entry(&self) -> DpbEntry {
        DpbEntry {
            surface_id: self.recon_surfaces@[self.current_recon_surface as int],
            frame_num: self.next_frame_num(),
            poc: self.next_poc(),
        }
    }

    /// The sequence parameters of this encoder's stream. A picture of more than
    /// 65535 macroblocks a side has its count cut to sixteen bits.
    pub open spec fn sequence_params(&self) -> SequenceParams {
        SequenceParams {
            level_idc: self.settings.level(),
            intra_period: IDR_INTERVAL,
            intra_idr_period: IDR_INTERVAL,
            ip_period: 1,
            bits_per_second: self.settings.bitrate,
            max_num_ref_frames: 1,
            picture_width_in_mbs: (macroblocks(self.settings.width as nat) % 0x1_0000) as u16,
            picture_height_in_mbs: (macroblocks(self.settings.height as nat) % 0x1_0000) as u16,
            seq_fields: seq_fields(),
            vui_parameters_present_flag: 1,
            vui_fields: vui_fields(),
            sar_width: 1,
            sar_height: 1,
            num_units_in_tick: 1,
            time_scale: (self.settings.fps * 2) as u32,
        }
    }

    /// The rate control of this encoder: the decoder buffer holds a second, and
    /// starts half full.
    pub open spec fn rate_control_params(&self) -> RateControlParams {
        let p = self.settings.policy();
        RateControlParams {
            bits_per_second: p.bits_per_second,
            target_percentage: p.target_percentage,
            window_size: 1000,
            initial_qp: p.initial_qp,
            min_qp: p.min_qp,
            rc_flags: p.rc_flags,
            max_qp: p.max_qp,
            hrd_initial_buffer_fullness: p.bits_per_second / 2,
            hrd_buffer_size: p.bits_per_second,
            framerate: self.settings.fps,
        }
    }

    /// The next frame as a picture: its own surface, its one reference and its
    /// coded buffer.
    pub open spec fn picture_is(&self, p: PictureParams) -> bool {
        &&& p.curr_pic == picture(
            self.next_entry().surface_id,
            self.next_frame_num() as u32,
            VA_PICTURE_H264_SHORT_TERM_REFERENCE,
            self.next_poc(),
        )
        &&& p.reference_frames@ == reference_list(
            REFERENCE_FRAME_SLOTS as nat,
            self.next_reference(),
        )
        &&& p.coded_buf == self.coded_buffers@[self.current_coded_buffer as int]
        &&& p.frame_num == self.next_frame_num()
        &&& p.pic_init_qp == self.settings.policy().pic_init_qp
        &&& p.pic_fields == pic_fields(self.idr_due(), self.profile == H264Profile::High)
    }

    /// The next frame as its one slice: all macroblocks, and its one reference.
    pub open spec fn slice_is(&self, p: SliceParams) -> bool {
        &&& p.num_macroblocks == macroblocks(self.settings.width as nat) * macroblocks(
            self.settings.height as nat,
        )
        &&& p.macroblock_info == VA_INVALID_ID
        &&& p.slice_type == if self.idr_due() {
            SLICE_TYPE_I
        } else {
            SLICE_TYPE_P
        }
        &&& p.idr_pic_id == self.next_frame_num()
        &&& p.pic_order_cnt_lsb == self.next_poc()
        &&& p.num_ref_idx_active_override_flag == if self.next_reference() is Some {
            1u8
        } else {
            0u8
        }
        &&& p.ref_pic_list_0@ == reference_list(REF_PIC_LIST_SLOTS as nat, self.next_reference())
        &&& p.ref_pic_list_1@ == reference_list(REF_PIC_LIST_SLOTS as nat, None)
    }

    /// The whole plan of the next frame, read from `input`.
    pub open spec fn plan_is(&self, input: u32, plan: FramePlan) -> bool {
        &&& plan.is_idr == self.idr_due()
        &&& plan.input_surface == input
        &&& plan.coded_buffer == self.coded_buffers@[self.current_coded_buffer as int]
        &&& plan.frame_num == self.next_frame_num()
        &&& plan.poc == self.next_poc()
        &&& plan.sequence == if self.idr_due() {
            Some(self.sequence_params())
        } else {
            None
        }
        &&& plan.rate_control == if self.idr_due() {
            Some(self.rate_control_params())
        } else {
            None
        }
        &&& bytes(plan.packed_sequence) == if self.idr_due() && self.packed_sequence_required {
            Some(self.sps_pps())
        } else {
            None
        }
        &&& self.picture_is(plan.picture)
        &&& self.slice_is(plan.slice)
        &&& bytes(plan.packed_slice) == if self.packed_slice_required {
            Some(
                annex_b(
                    slice_bits(
                        self.idr_due(),
                        self.next_frame_num(),
                        self.next_idr_pic_id(),
                        self.next_poc() as u8,
                    ),
                ),
            )
        } else {
            None
        }
    }

    /// Whether the next frame starts a sequence.
    pub fn is_idr_frame(&self) -> (r: bool)
        ensures
            r == self.idr_due(),
    {
        self.force_idr || (self.reference_mode.uses_periodic_idr() && self.frame_count
            % (IDR_INTERVAL as u64) == 0)
    }

    fn stream_header(&self) -> (r: StreamHeader)
        requires
            self.settings.dimensions_ok(),
            self.settings.rate_fits(),
        ensures
            r == self.header(),
            r.wf(),
    {
        let policy = vaapi_rate_control_policy(
            self.settings.bitrate,
            self.settings.quality,
            self.settings.rate_control,
        );
        StreamHeader {
            high_profile: match self.profile {
                H264Profile::High => true,
                H264Profile::Main => false,
            },
            level_idc: self.settings.get_h264_level(),
            width: self.settings.width,
            height: self.settings.height,
            fps: self.settings.fps,
            max_num_ref_frames: self.reference_mode.max_num_ref_frames(),
            pic_init_qp: policy.pic_init_qp,
        }
    }

    /// Generates the SPS and PPS NAL units that match the encoder's
    /// configuration.
    pub fn generate_sps_pps(&self) -> (r: Vec<u8>)
        requires
            self.settings.dimensions_ok(),
            self.settings.rate_fits(),
        ensures
            r@ == self.sps_pps(),
    {
        parameter_sets(&self.stream_header())
    }

    /// The slice header that matches `generate_sps_pps` (eight-bit frame numbers
    /// and picture order counts, CABAC, deblocking control present) and
    /// `build_slice_params`.
    pub fn generate_slice_header(&self, is_idr: bool, frame_num: u16, poc: i32) -> (r: Vec<u8>)
        ensures
            r@ == annex_b(slice_bits(is_idr, frame_num, self.idr_pic_id, (poc as int % 256) as u8)),
    {
        let lsb: u8 = low_byte(poc);
        slice_header(is_idr, frame_num, self.idr_pic_id, lsb)
    }

    /// The sequence parameters of this encoder's stream.
    pub fn build_sequence_params(&self) -> (r: SequenceParams)
        requires
            self.settings.rate_fits(),
        ensures
            r == self.sequence_params(),
    {
        SequenceParams {
            level_idc: self.settings.get_h264_level(),
            intra_period: IDR_INTERVAL,
            intra_idr_period: IDR_INTERVAL,
            ip_period: 1,
            bits_per_second: self.settings.bitrate,
            max_num_ref_frames: self.reference_mode.max_num_ref_frames(),
            picture_width_in_mbs: (div_ceil_16(self.settings.width) % 0x1_0000) as u16,
            picture_height_in_mbs: (div_ceil_16(self.settings.height) % 0x1_0000) as u16,
            seq_fields: h264_seq_fields_value(),
            vui_parameters_present_flag: 1,
            vui_fields: h264_vui_fields_value(),
            sar_width: 1,
            sar_height: 1,
            num_units_in_tick: 1,
            time_scale: self.settings.fps * 2,
        }
    }

    /// The rate control of this encoder.
    pub fn build_rate_control_params(&self) -> (r: RateControlParams)
        ensures
            r == self.rate_control_params(),
    {
        let policy = vaapi_rate_control_policy(
            self.settings.bitrate,
            self.settings.quality,
            self.settings.rate_control,
        );
        RateControlParams {
            bits_per_second: policy.bits_per_second,
            target_percentage: policy.target_percentage,
            window_size: 1000,
            initial_qp: policy.initial_qp,
            min_qp: policy.min_qp,
            rc_flags: policy.rc_flags,
            max_qp: policy.max_qp,
            hrd_initial_buffer_fullness: policy.bits_per_second / 2,
            hrd_buffer_size: policy.bits_per_second,
            framerate: self.settings.fps,
        }
    }

    fn build_picture_params(
        &self,
        recon_surface_id: u32,
        coded_buf_id: u32,
        is_idr: bool,
        frame_num: u16,
        poc: i32,
        role: VaapiEncodeRole,
    ) -> (p: PictureParams)
        ensures
            p.curr_pic == picture(
                recon_surface_id,
                frame_num as u32,
                VA_PICTURE_H264_SHORT_TERM_REFERENCE,
                poc,
            ),
            p.reference_frames@ == reference_list(
                REFERENCE_FRAME_SLOTS as nat,
                if is_idr {
                    None
                } else {
                    self.references.last
                },
            ),
            p.coded_buf == coded_buf_id,
            p.frame_num == frame_num,
            p.pic_init_qp == self.settings.policy().pic_init_qp,
            p.pic_fields == pic_fields(is_idr, self.profile == H264Profile::High),
    {
        let refs = if is_idr {
            Vec::new()
        } else {
            self.references.reference_frames(self.reference_mode, role)
        };
        let reference = if refs.len() > 0 {
            Some(refs[0])
        } else {
            None
        };
        let transform_8x8 = match self.profile {
            H264Profile::High => true,
            H264Profile::Main => false,
        };
        let policy = vaapi_rate_control_policy(
            self.settings.bitrate,
            self.settings.quality,
            self.settings.rate_control,
        );
        PictureParams {
            curr_pic: picture_h264(
                recon_surface_id,
                frame_num as u32,
                VA_PICTURE_H264_SHORT_TERM_REFERENCE,
                poc,
                poc,
            ),
            reference_frames: make_reference_list(REFERENCE_FRAME_SLOTS, reference),
            coded_buf: coded_buf_id,
            frame_num,
            pic_init_qp: policy.pic_init_qp,
            pic_fields: h264_pic_fields_value(is_idr, transform_8x8),
        }
    }

    fn build_slice_params(
        &self,
        num_macroblocks: u32,
        is_idr: bool,
        frame_num: u16,
        poc: i32,
        role: VaapiEncodeRole,
    ) -> (p: SliceParams)
        requires
            0 <= poc < 0x1_0000,
        ensures
            ({
                let reference = if is_idr {
                    None
                } else {
                    self.references.last
                };
                &&& p.num_macroblocks == num_macroblocks
                &&& p.macroblock_info == VA_INVALID_ID
                &&& p.slice_type == if is_idr {
                    SLICE_TYPE_I
                } else {
                    SLICE_TYPE_P
                }
                &&& p.idr_pic_id == frame_num
                &&& p.pic_order_cnt_lsb == poc
                &&& p.num_ref_idx_active_override_flag == if reference is Some {
                    1u8
                } else {
                    0u8
                }
                &&& p.ref_pic_list_0@ == reference_list(REF_PIC_LIST_SLOTS as nat, reference)
                &&& p.ref_pic_list_1@ == reference_list(REF_PIC_LIST_SLOTS as nat, None)
            }),
    {
        let primary_ref = if is_idr {
            None
        } else {
            self.references.primary_reference(role)
        };
        SliceParams {
            num_macroblocks,
            macroblock_info: VA_INVALID_ID,
            slice_type: if is_idr {
                SLICE_TYPE_I
            } else {
                SLICE_TYPE_P
            },
            idr_pic_id: frame_num,
            pic_order_cnt_lsb: poc as u16,
            num_ref_idx_active_override_flag: if primary_ref.is_some() {
                1
            } else {
                0
            },
            ref_pic_list_0: make_reference_list(REF_PIC_LIST_SLOTS, primary_ref),
            ref_pic_list_1: make_reference_list(REF_PIC_LIST_SLOTS, None),
        }
    }

    fn plan_frame(&self, input_surface: u32) -> (plan: FramePlan)
        requires
            self.wf(),
            self.settings.rate_fits(),
            self.frame_count < 0x8000_0000_0000_0000,
        ensures
            self.plan_is(input_surface, plan),
    {
        let is_idr = self.is_idr_frame();
        let recon_surface: u32 = self.recon_surfaces[self.current_recon_surface];
        let coded_buffer: u32 = self.coded_buffers[self.current_coded_buffer];
        let frame_num: u16 = (self.frame_count % 256) as u16;
        let poc: i32 = ((self.frame_count * 2) % 256) as i32;
        let mb_width: u32 = div_ceil_16(self.settings.width);
        let mb_height: u32 = div_ceil_16(self.settings.height);
        proof {
            lemma_macroblock_count(self.settings.width as int, self.settings.height as int);
        }
        let sequence = if is_idr {
            Some(self.build_sequence_params())
        } else {
            None
        };
        let rate_control = if is_idr {
            Some(self.build_rate_control_params())
        } else {
            None
        };
        let packed_sequence = if is_idr && self.packed_sequence_required {
            Some(self.generate_sps_pps())
        } else {
            None
        };
        let picture = self.build_picture_params(
            recon_surface,
            coded_buffer,
            is_idr,
            frame_num,
            poc,
            VaapiEncodeRole::Generic,
        );
        let slice = self.build_slice_params(
            mb_width * mb_height,
            is_idr,
            frame_num,
            poc,
            VaapiEncodeRole::Generic,
        );
        let idr_pic_id: u32 = if is_idr {
            self.idr_pic_id.wrapping_add(1)
        } else {
            self.idr_pic_id
        };
        let packed_slice = if self.packed_slice_required {
            Some(slice_header(is_idr, frame_num, idr_pic_id, low_byte(poc)))
        } else {
            None
        };
        assert(self.picture_is(picture));
        assert(self.slice_is(slice));
        FramePlan {
            is_idr,
            input_surface,
            coded_buffer,
            frame_num,
            poc,
            sequence,
            rate_control,
            packed_sequence,
            picture,
            slice,
            packed_slice,
        }
    }
}

/// The result for a picture from another device: it has a failure to render of
/// its own.
pub open spec fn of_imported(r: Result<Vec<u8>, VaapiError>) -> Result<Vec<u8>, VaapiError> {
    if r == Err::<Vec<u8>, _>(VaapiError::Encode(EncodeStage::Render)) {
        Err(VaapiError::RenderImported)
    } else {
        r
    }
}

impl VaapiEncoder {
    /// An encoder that a frame can be encoded with.
    pub open spec fn ready(&self) -> bool {
        self.wf() && self.settings.rate_fits() && self.can_count()
    }

    /// The surface of the input pool that the next frame takes.
    pub open spec fn next_input(&self) -> u32 {
        self.input_surfaces@[self.current_input_surface as int]
    }

    /// The calls that a frame from memory may make.
    pub open spec fn may_encode<S>(&self, submit: S) -> bool where
        S: FnOnce(FramePlan) -> SubmitOutcome,
     {
        forall|plan: FramePlan|
            self.plan_is(self.next_input(), plan) ==> #[trigger] submit.requires((plan,))
    }

    /// How a frame from memory ends on this encoder.
    pub open spec fn encoded<S>(
        &self,
        post: VaapiEncoder,
        submit: S,
        r: Result<Vec<u8>, VaapiError>,
    ) -> bool where S: FnOnce(FramePlan) -> SubmitOutcome {
        &&& post.wf()
        &&& post.current_input_surface == (self.current_input_surface + 1)
            % self.input_surfaces@.len() as int
        &&& post.dmabuf_input_surface == self.dmabuf_input_surface
        &&& exists|plan: FramePlan, outcome: SubmitOutcome|
            self.plan_is(self.next_input(), plan) && #[trigger] submit.ensures((plan,), outcome)
                && self.frame_done(post, outcome, r)
    }

    /// How a frame from another device ends on this encoder.
    pub open spec fn encoded_dmabuf<I, S>(
        &self,
        post: VaapiEncoder,
        frame: DmabufFrame,
        import: I,
        submit: S,
        r: Result<Vec<u8>, VaapiError>,
    ) -> bool where I: FnOnce(PrimeSurface) -> Option<u32>, S: FnOnce(FramePlan) -> SubmitOutcome {
        &&& post.wf()
        &&& post.current_input_surface == self.current_input_surface
        &&& match self.dmabuf_input_surface {
            Some(known) => post.dmabuf_input_surface == Some(known),
            None => import.ensures((frame.prime(),), post.dmabuf_input_surface),
        }
        &&& match post.dmabuf_input_surface {
            None => r == Err::<Vec<u8>, _>(VaapiError::ImportFailed) && post == *self,
            Some(surface) => exists|
                plan: FramePlan,
                outcome: SubmitOutcome,
                coded: Result<Vec<u8>, VaapiError>,
            |
                self.plan_is(surface, plan) && #[trigger] submit.ensures((plan,), outcome)
                    && #[trigger] self.frame_done(post, outcome, coded) && r == of_imported(coded),
        }
    }

    /// The calls that a frame from another device may make.
    pub open spec fn may_encode_dmabuf<I, S>(&self, frame: DmabufFrame, import: I, submit: S) -> bool where
        I: FnOnce(PrimeSurface) -> Option<u32>,
        S: FnOnce(FramePlan) -> SubmitOutcome,
     {
        &&& self.dmabuf_input_surface is None ==> frame.fits() && import.requires(
            (frame.prime(),),
        )
        &&& forall|surface: u32, plan: FramePlan|
            self.plan_is(surface, plan) && (match self.dmabuf_input_surface {
                Some(known) => surface == known,
                None => import.ensures((frame.prime(),), Some(surface)),
            }) ==> submit.requires((plan,))
    }
}

impl VaapiEncoder {
    /// What the encoder remembers for reference after a frame: nothing before an
    /// IDR, and the frame itself once it was rendered.
    pub open spec fn references_after(&self, outcome: SubmitOutcome) -> VaapiReferenceState {
        let kept = if self.idr_due() && outcome.passed(EncodeStage::Upload) {
            no_references()
        } else {
            self.references
        };
        if outcome.passed(EncodeStage::Render) {
            kept.recorded(VaapiEncodeRole::Generic, self.next_entry())
        } else {
            kept
        }
    }

    /// The parameter sets that are known after a frame. Those in the coded data
    /// of an IDR come first; without them, this encoder's own count.
    pub open spec fn parameter_sets_after(&self, outcome: SubmitOutcome) -> Option<Seq<u8>> {
        if !self.idr_due() {
            bytes(self.cached_sps_pps)
        } else {
            match outcome {
                SubmitOutcome::Coded(data) => match sps_pps_of(data@) {
                    Some(found) => Some(found),
                    None => Some(self.sps_pps()),
                },
                SubmitOutcome::Failed(_) => if self.packed_sequence_required && outcome.passed(
                    EncodeStage::PackedSequenceData,
                ) {
                    Some(self.sps_pps())
                } else {
                    bytes(self.cached_sps_pps)
                },
            }
        }
    }

    /// What stands before the coded data of a frame in the output: the parameter
    /// sets, unless the data of an IDR already holds them.
    pub open spec fn prefix_for(&self, data: Seq<u8>) -> Seq<u8> {
        if self.idr_due() {
            if sps_pps_of(data) is Some {
                Seq::empty()
            } else {
                self.sps_pps()
            }
        } else {
            match self.cached_sps_pps {
                Some(sets) => sets@,
                None => Seq::empty(),
            }
        }
    }

    /// `post` is what became of `self` by a frame that came out as `outcome`,
    /// apart from the input pool.
    /// The encoder and the result after a frame that came out as `outcome`. A frame
    /// that failed is not counted, and one that was coded follows its parameter sets.
    pub open spec fn frame_done(
        &self,
        post: VaapiEncoder,
        outcome: SubmitOutcome,
        r: Result<Vec<u8>, VaapiError>,
    ) -> bool {
        &&& post.same_setup(*self)
        &&& post.current_recon_surface == (self.current_recon_surface + 1)
            % self.recon_surfaces@.len() as int
        &&& post.current_coded_buffer == (self.current_coded_buffer + 1)
            % self.coded_buffers@.len() as int
        &&& post.references == self.references_after(outcome)
        &&& bytes(post.cached_sps_pps) == self.parameter_sets_after(outcome)
        &&& post.idr_pic_id == if self.packed_slice_required && outcome.reached(
            EncodeStage::PackedSliceParam,
        ) {
            self.next_idr_pic_id()
        } else {
            self.idr_pic_id
        }
        &&& match outcome {
            SubmitOutcome::Failed(stage) => {
                &&& r == Err::<Vec<u8>, _>(VaapiError::Encode(stage))
                &&& post.force_idr == self.force_idr
                &&& post.frame_count == self.frame_count
            },
            SubmitOutcome::Coded(data) => {
                &&& r is Ok
                &&& r->Ok_0@ == self.prefix_for(data@) + data@
                &&& !post.force_idr
                &&& post.frame_count == self.frame_count + 1
            },
        }
    }

    /// Frames are counted without end in practice: at a thousand frames a second
    /// this bound takes longer than a hundred million years to reach.
    pub open spec fn can_count(&self) -> bool {
        self.frame_count < 0x8000_0000_0000_0000
    }

    fn finish_frame(
        &mut self,
        plan_sps_pps: Option<Vec<u8>>,
        outcome: SubmitOutcome,
    ) -> (r: Result<Vec<u8>, VaapiError>)
        requires
            old(self).wf(),
            old(self).settings.rate_fits(),
            old(self).can_count(),
            bytes(plan_sps_pps) == if old(self).idr_due() && old(self).packed_sequence_required {
                Some(old(self).sps_pps())
            } else {
                None
            },
        ensures
            old(self).frame_done(*final(self), outcome, r),
            final(self).wf(),
            final(self).current_input_surface == old(self).current_input_surface,
            final(self).dmabuf_input_surface == old(self).dmabuf_input_surface,
    {
        let is_idr = self.is_idr_frame();
        let frame_num: u16 = (self.frame_count % 256) as u16;
        let poc: i32 = ((self.frame_count * 2) % 256) as i32;
        let recon_surface: u32 = self.recon_surfaces[self.current_recon_surface];
        self.current_recon_surface = next_index(
            self.current_recon_surface,
            self.recon_surfaces.len(),
        );
        self.current_coded_buffer = next_index(self.current_coded_buffer, self.coded_buffers.len());
        if is_idr && outcome.has_passed(EncodeStage::Upload) {
            self.references.clear();
        }
        if let Some(sps_pps) = plan_sps_pps {
            if outcome.has_passed(EncodeStage::PackedSequenceData) {
                self.cached_sps_pps = Some(sps_pps);
            }
        }
        if is_idr && self.packed_slice_required && outcome.has_reached(
            EncodeStage::PackedSliceParam,
        ) {
            self.idr_pic_id = self.idr_pic_id.wrapping_add(1);
        }
        if outcome.has_passed(EncodeStage::Render) {
            self.references.record(
                VaapiEncodeRole::Generic,
                DpbEntry { surface_id: recon_surface, frame_num, poc },
            );
        }
        let mut data = match outcome {
            SubmitOutcome::Failed(stage) => return Err(VaapiError::Encode(stage)),
            SubmitOutcome::Coded(data) => data,
        };
        let ghost coded = data@;
        if is_idr {
            match extract_sps_pps(data.as_slice()) {
                Some(sps_pps) => {
                    self.cached_sps_pps = Some(sps_pps);
                    assert(data@ =~= old(self).prefix_for(coded) + coded);
                },
                None => {
                    let sps_pps = self.generate_sps_pps();
                    let mut combined = copy_bytes(&sps_pps);
                    combined.append(&mut data);
                    data = combined;
                    self.cached_sps_pps = Some(sps_pps);
                },
            }
        } else {
            match &self.cached_sps_pps {
                Some(sps_pps) => {
                    let mut combined = copy_bytes(sps_pps);
                    combined.append(&mut data);
                    data = combined;
                },
                None => {
                    assert(data@ =~= old(self).prefix_for(coded) + coded);
                },
            }
        }
        self.force_idr = false;
        self.frame_count = self.frame_count + 1;
        Ok(data)
    }

    /// Encodes a BGRA picture: plans the frame on the next input surface of the
    /// pool, has `submit` upload the picture there, encode it and read the coded
    /// data, and completes the data with parameter sets.
    pub fn encode<S>(&mut self, submit: S) -> (r: Result<Vec<u8>, VaapiError>) where
        S: FnOnce(FramePlan) -> SubmitOutcome,

        requires
            old(self).ready(),
            old(self).may_encode(submit),
        ensures
            old(self).encoded(*final(self), submit, r),
    {
        let input_surface: u32 = self.input_surfaces[self.current_input_surface];
        let plan = self.plan_frame(input_surface);
        let sps_pps = copy_optional(&plan.packed_sequence);
        self.current_input_surface = next_index(
            self.current_input_surface,
            self.input_surfaces.len(),
        );
        let ghost moved = *self;
        let outcome = submit(plan);
        let ghost came_out = outcome;
        let r = self.finish_frame(sps_pps, outcome);
        proof {
            moved.lemma_input_pool_does_not_matter(*old(self), *self, came_out, r);
        }
        r
    }

    /// Encodes from an NV12 buffer of another device (zero-copy path).
    ///
    /// `import` makes the buffer an input surface, once: the surface is kept and
    /// used for every later frame. The frame is then encoded as by `encode`,
    /// without touching the input pool.
    pub fn encode_dmabuf<I, S>(&mut self, frame: DmabufFrame, import: I, submit: S) -> (r: Result<
        Vec<u8>,
        VaapiError,
    >) where I: FnOnce(PrimeSurface) -> Option<u32>, S: FnOnce(FramePlan) -> SubmitOutcome
        requires
            old(self).ready(),
            old(self).may_encode_dmabuf(frame, import, submit),
        ensures
            old(self).encoded_dmabuf(*final(self), frame, import, submit, r),
    {
        let surface: u32 = match self.dmabuf_input_surface {
            Some(surface) => surface,
            None => match import(frame.prime_surface()) {
                Some(surface) => surface,
                None => return Err(VaapiError::ImportFailed),
            },
        };
        self.dmabuf_input_surface = Some(surface);
        let ghost moved = *self;
        let plan = self.plan_frame(surface);
        let sps_pps = copy_optional(&plan.packed_sequence);
        assert(old(self).plan_is(surface, plan));
        let outcome = submit(plan);
        let ghost came_out = outcome;
        let r = self.finish_frame(sps_pps, outcome);
        proof {
            moved.lemma_input_pool_does_not_matter(*old(self), *self, came_out, r);
        }
        match r {
            Err(VaapiError::Encode(EncodeStage::Render)) => Err(VaapiError::RenderImported),
            r => r,
        }
    }

    proof fn lemma_input_pool_does_not_matter(
        &self,
        before: VaapiEncoder,
        post: VaapiEncoder,
        outcome: SubmitOutcome,
        r: Result<Vec<u8>, VaapiError>,
    )
        requires
            self.frame_done(post, outcome, r),
            *self == (VaapiEncoder {
                current_input_surface: self.current_input_surface,
                dmabuf_input_surface: self.dmabuf_input_surface,
                ..before
            }),
        ensures
            before.frame_done(post, outcome, r),
    {
    }
}

fn next_index(i: usize, len: usize) -> (r: usize)
    requires
        i < len,
    ensures
        r == (i + 1) % len as int,
        r < len,
{
    (i + 1) % len
}

fn copy_bytes(v: &Vec<u8>) -> (r: Vec<u8>)
    ensures
        r@ == v@,
{
    let mut out: Vec<u8> = Vec::new();
    out.extend_from_slice(v.as_slice());
    assert(out@ =~= v@);
    out
}

fn copy_optional(v: &Option<Vec<u8>>) -> (r: Option<Vec<u8>>)
    ensures
        bytes(r) == bytes(*v),
{
    match v {
        Some(b) => Some(copy_bytes(b)),
        None => None,
    }
}

fn low_byte(v: i32) -> (r: u8)
    ensures
        r == v as int % 256,
{
    if v >= 0 {
        (v % 256) as u8
    } else {
        let back: i32 = -(v + 1) % 256;
        (255 - back) as u8
    }
}

proof fn lemma_macroblock_count(w: int, h: int)
    requires
        0 < w,
        0 < h,
        w * h * 3 <= u32::MAX,
    ensures
        0 <= macroblocks(w as nat) * macroblocks(h as nat) <= u32::MAX,
{
    let mw = macroblocks(w as nat) as int;
    let mh = macroblocks(h as nat) as int;
    assert(0 <= mw * mh <= w * h) by (nonlinear_arith)
        requires
            0 <= mw <= w,
            0 <= mh <= h,
    ;
}

} // verus!
