//! The words of errors.
//!
//! Where a call outside the library failed, `cause` is what that call said. It is
//! part of some errors' words; for others it stands behind them as their source.
use vstd::prelude::*;

use super::backend::FrameError;
use super::device::DeviceError;
use super::vaapi::{EncodeStage, SetupStep, VaapiError};
use crate::text::{decimal, joined, push_decimal};

verus! {

impl DeviceError {
    /// The error in words.
    pub open spec fn words(self) -> Seq<char> {
        match self {
            DeviceError::NoDirectory => "/dev/dri not found"@,
            DeviceError::UnreadableDirectory => "failed to read /dev/dri"@,
            DeviceError::NoRenderDevices => "no render devices found in /dev/dri"@,
            DeviceError::NoEncodeSupport { checked } => {
                "no VA-API device with H.264 encode support found (checked "@ + decimal(
                    checked as nat,
                ) + " devices)"@
            },
        }
    }

    /// The error in words.
    pub fn message(&self) -> (r: String)
        ensures
            r@ == self.words(),
    {
        match self {
            DeviceError::NoDirectory => "/dev/dri not found".to_owned(),
            DeviceError::UnreadableDirectory => "failed to read /dev/dri".to_owned(),
            DeviceError::NoRenderDevices => "no render devices found in /dev/dri".to_owned(),
            DeviceError::NoEncodeSupport { checked } => {
                let mut out =
                    "no VA-API device with H.264 encode support found (checked ".to_owned();
                push_decimal(&mut out, *checked as u64);
                out.append(" devices)");
                out
            },
        }
    }
}

impl SetupStep {
    /// A failed step in words, with what the driver said.
    pub open spec fn words(self, cause: Seq<char>) -> Seq<char> {
        match self {
            SetupStep::OpenDisplay => "Failed to open VA display: "@ + cause,
            SetupStep::QueryProfiles => "Failed to query profiles: "@ + cause,
            SetupStep::QueryEntrypoints => "Failed to query entrypoints: "@ + cause,
            SetupStep::CreateConfig => "Failed to create config: "@ + cause,
            SetupStep::CreateInputSurfaces => "Failed to create input surfaces: "@ + cause,
            SetupStep::CreateReconSurfaces => "Failed to create recon surfaces: "@ + cause,
            SetupStep::CreateContext => "Failed to create context: "@ + cause,
            SetupStep::QueryImageFormats => "Failed to query image formats: "@ + cause,
            SetupStep::CreateCodedBuffer(i) => {
                "Failed to create coded buffer "@ + decimal(i as nat) + ": "@ + cause
            },
        }
    }

    /// A failed step in words, with what the driver said.
    pub fn message(&self, cause: &str) -> (r: String)
        ensures
            r@ == self.words(cause@),
    {
        match self {
            SetupStep::OpenDisplay => joined("Failed to open VA display: ", cause),
            SetupStep::QueryProfiles => joined("Failed to query profiles: ", cause),
            SetupStep::QueryEntrypoints => joined("Failed to query entrypoints: ", cause),
            SetupStep::CreateConfig => joined("Failed to create config: ", cause),
            SetupStep::CreateInputSurfaces => joined("Failed to create input surfaces: ", cause),
            SetupStep::CreateReconSurfaces => joined("Failed to create recon surfaces: ", cause),
            SetupStep::CreateContext => joined("Failed to create context: ", cause),
            SetupStep::QueryImageFormats => joined("Failed to query image formats: ", cause),
            SetupStep::CreateCodedBuffer(i) => {
                let mut out = "Failed to create coded buffer ".to_owned();
                push_decimal(&mut out, *i as u64);
                out.append(": ");
                out.append(cause);
                out
            },
        }
    }
}

impl EncodeStage {
    /// A failed call in words. Rendering and reading have none of their own.
    pub open spec fn words(self, cause: Seq<char>) -> Seq<char> {
        match self {
            EncodeStage::Upload => "Failed to create VA image"@,
            EncodeStage::SequenceBuffer => "Failed to create seq buffer"@,
            EncodeStage::RateControlBuffer => "Failed to create rate control buffer"@,
            EncodeStage::HrdBuffer => "Failed to create HRD buffer"@,
            EncodeStage::FrameRateBuffer => "Failed to create frame rate buffer"@,
            EncodeStage::PackedSequenceParam => "Failed to create packed sequence param buffer"@,
            EncodeStage::PackedSequenceData => "Failed to create packed sequence data buffer"@,
            EncodeStage::PictureBuffer => "Failed to create pic buffer"@,
            EncodeStage::SliceBuffer => "Failed to create slice buffer"@,
            EncodeStage::PackedSliceParam => "Failed to create packed slice param buffer"@,
            EncodeStage::PackedSliceData => "Failed to create packed slice data buffer"@,
            EncodeStage::Render | EncodeStage::ReadCoded => cause,
        }
    }

    /// A failed call in words. Rendering and reading have none of their own.
    pub fn message(&self, cause: &str) -> (r: String)
        ensures
            r@ == self.words(cause@),
    {
        let words = match self {
            EncodeStage::Upload => "Failed to create VA image",
            EncodeStage::SequenceBuffer => "Failed to create seq buffer",
            EncodeStage::RateControlBuffer => "Failed to create rate control buffer",
            EncodeStage::HrdBuffer => "Failed to create HRD buffer",
            EncodeStage::FrameRateBuffer => "Failed to create frame rate buffer",
            EncodeStage::PackedSequenceParam => "Failed to create packed sequence param buffer",
            EncodeStage::PackedSequenceData => "Failed to create packed sequence data buffer",
            EncodeStage::PictureBuffer => "Failed to create pic buffer",
            EncodeStage::SliceBuffer => "Failed to create slice buffer",
            EncodeStage::PackedSliceParam => "Failed to create packed slice param buffer",
            EncodeStage::PackedSliceData => "Failed to create packed slice data buffer",
            EncodeStage::Render | EncodeStage::ReadCoded => cause,
        };
        words.to_owned()
    }
}

impl VaapiError {
    /// The error in words.
    pub open spec fn words(self, cause: Seq<char>) -> Seq<char> {
        match self {
            VaapiError::InvalidDimensions { width, height } => {
                "dimensions must be non-zero and even: "@ + decimal(width as nat) + "x"@ + decimal(
                    height as nat,
                )
            },
            VaapiError::Device(e) => e.words(),
            VaapiError::ProfileNotSupported => "H.264 encode not supported by VA-API driver"@,
            VaapiError::EntrypointNotSupported => "H.264 encode entrypoint not supported"@,
            VaapiError::Nv12NotSupported => "NV12 format not supported"@,
            VaapiError::Setup(step) => step.words(cause),
            VaapiError::ImportFailed => "Failed to import NV12 DMA-BUF surface: "@ + cause,
            VaapiError::Encode(stage) => stage.words(cause),
            VaapiError::RenderImported => "VA-API render failed (dmabuf): "@ + cause,
        }
    }

    /// The error in words.
    pub fn message(&self, cause: &str) -> (r: String)
        ensures
            r@ == self.words(cause@),
    {
        match self {
            VaapiError::InvalidDimensions { width, height } => {
                let mut out = "dimensions must be non-zero and even: ".to_owned();
                push_decimal(&mut out, *width as u64);
                out.append("x");
                push_decimal(&mut out, *height as u64);
                out
            },
            VaapiError::Device(e) => e.message(),
            VaapiError::ProfileNotSupported => {
                "H.264 encode not supported by VA-API driver".to_owned()
            },
            VaapiError::EntrypointNotSupported => {
                "H.264 encode entrypoint not supported".to_owned()
            },
            VaapiError::Nv12NotSupported => "NV12 format not supported".to_owned(),
            VaapiError::Setup(step) => step.message(cause),
            VaapiError::ImportFailed => joined("Failed to import NV12 DMA-BUF surface: ", cause),
            VaapiError::Encode(stage) => stage.message(cause),
            VaapiError::RenderImported => joined("VA-API render failed (dmabuf): ", cause),
        }
    }
}

impl FrameError {
    /// The error in words. A software encoder's own errors speak for themselves.
    pub open spec fn words(self, cause: Seq<char>) -> Seq<char> {
        match self {
            FrameError::VaapiRequired(_) | FrameError::VaapiAvc444Required => {
                "encoder=vaapi requested but VA-API init failed"@
            },
            FrameError::RequiresEncodeAvc444 => "AVC444 encoder requires encode_avc444"@,
            FrameError::RequiresSoftwareEncoder => "AVC444 encoding requires software encoder"@,
            FrameError::RequiresAvc444Encoder => "AVC444 encoding requires AVC444 encoder"@,
            FrameError::RequiresVaapi => "DMA-BUF encode requires VA-API backend"@,
            FrameError::Vaapi(e) => e.words(cause),
            FrameError::SoftwareInit
            | FrameError::Avc444Init
            | FrameError::SoftwareEncode
            | FrameError::Avc444Encode => cause,
        }
    }

    /// The error in words. A software encoder's own errors speak for themselves.
    pub fn message(&self, cause: &str) -> (r: String)
        ensures
            r@ == self.words(cause@),
    {
        match self {
            FrameError::VaapiRequired(_) | FrameError::VaapiAvc444Required => {
                "encoder=vaapi requested but VA-API init failed".to_owned()
            },
            FrameError::RequiresEncodeAvc444 => "AVC444 encoder requires encode_avc444".to_owned(),
            FrameError::RequiresSoftwareEncoder => {
                "AVC444 encoding requires software encoder".to_owned()
            },
            FrameError::RequiresAvc444Encoder => {
                "AVC444 encoding requires AVC444 encoder".to_owned()
            },
            FrameError::RequiresVaapi => "DMA-BUF encode requires VA-API backend".to_owned(),
            FrameError::Vaapi(e) => e.message(cause),
            FrameError::SoftwareInit
            | FrameError::Avc444Init
            | FrameError::SoftwareEncode
            | FrameError::Avc444Encode => cause.to_owned(),
        }
    }
}

} // verus!
