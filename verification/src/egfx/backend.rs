//! The encoder in use: hardware VA-API, common H.264 software, or AVC444.
//!
//! Encoders are opened and pictures encoded by whoever owns the devices and
//! codecs. The functions here take those calls as arguments, and state in their
//! `requires` which of them may be made.
use vstd::prelude::*;

use super::policy::{encoder_policy, policy_in, EncoderPolicy};
use super::vaapi::{
    DmabufFrame, EncoderSettings, FramePlan, PrimeSurface, SubmitOutcome, VaapiEncoder, VaapiError,
};

verus! {

/// The software H.264 encoder.
#[derive(Clone, Copy, Debug, PartialEq, Eq, Structural)]
pub struct H264Encoder {
    pub settings: EncoderSettings,
    /// Whether the next frame is to start a sequence.
    pub force_idr: bool,
}

/// The AVC444 encoder, by the name of its backend.
#[derive(Clone, Copy, Debug)]
pub struct Avc444Encoder {
    pub settings: EncoderSettings,
    pub name: &'static str,
    pub vaapi: bool,
    /// Whether the next frame is to start a sequence.
    pub force_idr: bool,
}

/// Which codec a frame is encoded with.
#[derive(Clone, Copy, Debug, PartialEq, Eq, Structural)]
pub enum EgfxFrameCodec {
    Avc420,
    Avc444,
}

/// An encoded frame.
#[derive(Debug, PartialEq, Eq)]
pub enum EncodedEgfxFrame<T> {
    Avc420(Vec<u8>),
    Avc444(T),
}

/// Why there is no encoder or no frame.
#[derive(Clone, Copy, Debug, PartialEq, Eq, Structural)]
pub enum FrameError {
    /// VA-API was required and could not be set up.
    VaapiRequired(VaapiError),
    /// VA-API was required for AVC444 and could not be set up.
    VaapiAvc444Required,
    SoftwareInit,
    Avc444Init,
    /// An AVC444 encoder was asked for a plain frame.
    RequiresEncodeAvc444,
    /// A hardware encoder was asked for an AVC444 frame.
    RequiresSoftwareEncoder,
    /// A plain software encoder was asked for an AVC444 frame.
    RequiresAvc444Encoder,
    /// A software encoder was handed a buffer of another device.
    RequiresVaapi,
    Vaapi(VaapiError),
    SoftwareEncode,
    Avc444Encode,
}

/// Encoder backend: hardware VA-API, common H.264 software, or AVC444.
pub enum FrameEncoder {
    Vaapi(VaapiEncoder),
    Software(H264Encoder),
    SoftwareAvc444(Avc444Encoder),
}

impl Avc444Encoder {
    /// The AVC444 encoder that needs no hardware.
    pub fn software(settings: EncoderSettings) -> (r: Self)
        ensures
            r.settings == settings,
            r.name@ == "ffmpeg-avc444"@,
            !r.vaapi,
            !r.force_idr,
    {
        Avc444Encoder { settings, name: "ffmpeg-avc444", vaapi: false, force_idr: false }
    }

    /// An AVC444 encoder that uses VA-API, by the name of its backend.
    pub fn with_vaapi(settings: EncoderSettings, name: &'static str) -> (r: Self)
        ensures
            r.settings == settings,
            r.name == name,
            r.vaapi,
            !r.force_idr,
    {
        Avc444Encoder { settings, name, vaapi: true, force_idr: false }
    }
}

/// A software encoder, as far as it could be opened.
pub open spec fn software_result(settings: EncoderSettings, ok: bool) -> Result<
    FrameEncoder,
    FrameError,
> {
    if ok {
        Ok(FrameEncoder::Software(H264Encoder { settings, force_idr: false }))
    } else {
        Err(FrameError::SoftwareInit)
    }
}

/// An AVC444 software encoder, as far as it could be opened.
pub open spec fn is_avc444_software(
    r: Result<FrameEncoder, FrameError>,
    settings: EncoderSettings,
    ok: bool,
) -> bool {
    if ok {
        match r {
            Ok(FrameEncoder::SoftwareAvc444(e)) => {
                &&& e.settings == settings
                &&& e.name@ == "ffmpeg-avc444"@
                &&& !e.vaapi
                &&& !e.force_idr
            },
            _ => false,
        }
    } else {
        r == Err::<FrameEncoder, _>(FrameError::Avc444Init)
    }
}

/// What encoder creation may call under a policy: hardware unless the policy is
/// for software, and software only under that policy, or where hardware failed
/// and is not required.
pub open spec fn may_open<V, S>(
    policy: EncoderPolicy,
    settings: EncoderSettings,
    open_vaapi: V,
    open_software: S,
) -> bool where
    V: FnOnce(EncoderSettings) -> Result<VaapiEncoder, VaapiError>,
    S: FnOnce(EncoderSettings) -> bool,
 {
    match policy {
        EncoderPolicy::Software => open_software.requires((settings,)),
        EncoderPolicy::Vaapi => open_vaapi.requires((settings,)),
        EncoderPolicy::Auto => {
            &&& open_vaapi.requires((settings,))
            &&& forall|e: VaapiError| #[trigger]
                open_vaapi.ensures((settings,), Err(e)) ==> open_software.requires((settings,))
        },
    }
}

/// What the creation of an AVC444 encoder may call under a policy.
pub open spec fn may_open_avc444<V, S>(
    policy: EncoderPolicy,
    settings: EncoderSettings,
    open_vaapi: V,
    open_software: S,
) -> bool where
    V: FnOnce(EncoderSettings) -> Option<&'static str>,
    S: FnOnce(EncoderSettings) -> bool,
 {
    match policy {
        EncoderPolicy::Software => open_software.requires((settings,)),
        EncoderPolicy::Vaapi => open_vaapi.requires((settings,)),
        EncoderPolicy::Auto => {
            &&& open_vaapi.requires((settings,))
            &&& open_vaapi.ensures((settings,), None) ==> open_software.requires((settings,))
        },
    }
}

/// What a policy lets encoder creation end with.
pub open spec fn opened<V, S>(
    policy: EncoderPolicy,
    settings: EncoderSettings,
    open_vaapi: V,
    open_software: S,
    r: Result<FrameEncoder, FrameError>,
) -> bool where
    V: FnOnce(EncoderSettings) -> Result<VaapiEncoder, VaapiError>,
    S: FnOnce(EncoderSettings) -> bool,
 {
    if policy == EncoderPolicy::Software {
        exists|ok: bool|
            #[trigger] open_software.ensures((settings,), ok) && r == software_result(settings, ok)
    } else {
        exists|hardware: Result<VaapiEncoder, VaapiError>|
            #[trigger] open_vaapi.ensures((settings,), hardware) && match hardware {
                Ok(encoder) => r == Ok::<_, FrameError>(FrameEncoder::Vaapi(encoder)),
                Err(e) => if policy == EncoderPolicy::Vaapi {
                    r == Err::<FrameEncoder, _>(FrameError::VaapiRequired(e))
                } else {
                    exists|ok: bool|
                        #[trigger] open_software.ensures((settings,), ok) && r == software_result(
                            settings,
                            ok,
                        )
                },
            }
    }
}

/// What a policy lets the creation of an AVC444 encoder end with.
pub open spec fn opened_avc444<V, S>(
    policy: EncoderPolicy,
    settings: EncoderSettings,
    open_vaapi: V,
    open_software: S,
    r: Result<FrameEncoder, FrameError>,
) -> bool where
    V: FnOnce(EncoderSettings) -> Option<&'static str>,
    S: FnOnce(EncoderSettings) -> bool,
 {
    if policy == EncoderPolicy::Software {
        exists|ok: bool|
            #[trigger] open_software.ensures((settings,), ok) && is_avc444_software(
                r,
                settings,
                ok,
            )
    } else {
        exists|hardware: Option<&'static str>|
            #[trigger] open_vaapi.ensures((settings,), hardware) && match hardware {
                Some(name) => r == Ok::<_, FrameError>(
                    FrameEncoder::SoftwareAvc444(
                        Avc444Encoder { settings, name, vaapi: true, force_idr: false },
                    ),
                ),
                None => if policy == EncoderPolicy::Vaapi {
                    r == Err::<FrameEncoder, _>(FrameError::VaapiAvc444Required)
                } else {
                    exists|ok: bool|
                        #[trigger] open_software.ensures((settings,), ok) && is_avc444_software(
                            r,
                            settings,
                            ok,
                        )
                },
            }
    }
}

/// What a policy lets the creation of a codec's encoder end with.
pub open spec fn opened_for_codec<V, S, W, T>(
    codec: EgfxFrameCodec,
    policy: EncoderPolicy,
    settings: EncoderSettings,
    open_vaapi: V,
    open_software: S,
    open_avc444_vaapi: W,
    open_avc444_software: T,
    r: Result<FrameEncoder, FrameError>,
) -> bool where
    V: FnOnce(EncoderSettings) -> Result<VaapiEncoder, VaapiError>,
    S: FnOnce(EncoderSettings) -> bool,
    W: FnOnce(EncoderSettings) -> Option<&'static str>,
    T: FnOnce(EncoderSettings) -> bool,
 {
    match codec {
        EgfxFrameCodec::Avc420 => opened(policy, settings, open_vaapi, open_software, r),
        EgfxFrameCodec::Avc444 => opened_avc444(
            policy,
            settings,
            open_avc444_vaapi,
            open_avc444_software,
            r,
        ),
    }
}

impl FrameEncoder {
    /// Creates an encoder following the policy that was set.
    pub fn new<V, S>(
        policy: &Option<EncoderPolicy>,
        settings: EncoderSettings,
        open_vaapi: V,
        open_software: S,
    ) -> (r: Result<Self, FrameError>) where
        V: FnOnce(EncoderSettings) -> Result<VaapiEncoder, VaapiError>,
        S: FnOnce(EncoderSettings) -> bool,

        requires
            may_open(policy_in(*policy), settings, open_vaapi, open_software),
        ensures
            opened(policy_in(*policy), settings, open_vaapi, open_software, r),
    {
        Self::new_with_policy(encoder_policy(policy), settings, open_vaapi, open_software)
    }

    /// Creates an encoder: hardware unless the policy is for software, and
    /// software where hardware is not to be had and not required.
    pub fn new_with_policy<V, S>(
        policy: EncoderPolicy,
        settings: EncoderSettings,
        open_vaapi: V,
        open_software: S,
    ) -> (r: Result<Self, FrameError>) where
        V: FnOnce(EncoderSettings) -> Result<VaapiEncoder, VaapiError>,
        S: FnOnce(EncoderSettings) -> bool,

        requires
            may_open(policy, settings, open_vaapi, open_software),
        ensures
            opened(policy, settings, open_vaapi, open_software, r),
    {
        if policy != EncoderPolicy::Software {
            match open_vaapi(settings) {
                Ok(encoder) => {
                    assert(open_vaapi.ensures((settings,), Ok(encoder)));
                    return Ok(FrameEncoder::Vaapi(encoder));
                },
                Err(e) => {
                    assert(open_vaapi.ensures((settings,), Err(e)));
                    if policy == EncoderPolicy::Vaapi {
                        return Err(FrameError::VaapiRequired(e));
                    }
                },
            }
        }
        Self::new_software_only(settings, open_software)
    }

    /// Creates a software-only encoder (fallback when VA-API fails at runtime).
    pub fn new_software_only<S>(settings: EncoderSettings, open_software: S) -> (r: Result<
        Self,
        FrameError,
    >) where S: FnOnce(EncoderSettings) -> bool
        requires
            open_software.requires((settings,)),
        ensures
            exists|ok: bool|
                #[trigger] open_software.ensures((settings,), ok) && r == software_result(
                    settings,
                    ok,
                ),
    {
        if open_software(settings) {
            assert(open_software.ensures((settings,), true));
            Ok(FrameEncoder::Software(H264Encoder { settings, force_idr: false }))
        } else {
            assert(open_software.ensures((settings,), false));
            Err(FrameError::SoftwareInit)
        }
    }

    /// Creates an AVC444 encoder following the policy that was set. `open_vaapi`
    /// gives the name of the backend that it could open.
    pub fn new_avc444<V, S>(
        policy: &Option<EncoderPolicy>,
        settings: EncoderSettings,
        open_vaapi: V,
        open_software: S,
    ) -> (r: Result<Self, FrameError>) where
        V: FnOnce(EncoderSettings) -> Option<&'static str>,
        S: FnOnce(EncoderSettings) -> bool,

        requires
            may_open_avc444(policy_in(*policy), settings, open_vaapi, open_software),
        ensures
            opened_avc444(policy_in(*policy), settings, open_vaapi, open_software, r),
    {
        let policy = encoder_policy(policy);
        if policy != EncoderPolicy::Software {
            match open_vaapi(settings) {
                Some(name) => {
                    assert(open_vaapi.ensures((settings,), Some(name)));
                    return Ok(
                        FrameEncoder::SoftwareAvc444(Avc444Encoder::with_vaapi(settings, name)),
                    );
                },
                None => {
                    assert(open_vaapi.ensures((settings,), None));
                    if policy == EncoderPolicy::Vaapi {
                        return Err(FrameError::VaapiAvc444Required);
                    }
                },
            }
        }
        Self::new_avc444_software_only(settings, open_software)
    }

    /// Creates an AVC444 encoder that needs no hardware.
    pub fn new_avc444_software_only<S>(settings: EncoderSettings, open_software: S) -> (r: Result<
        Self,
        FrameError,
    >) where S: FnOnce(EncoderSettings) -> bool
        requires
            open_software.requires((settings,)),
        ensures
            exists|ok: bool|
                #[trigger] open_software.ensures((settings,), ok) && is_avc444_software(
                    r,
                    settings,
                    ok,
                ),
    {
        if open_software(settings) {
            assert(open_software.ensures((settings,), true));
            Ok(FrameEncoder::SoftwareAvc444(Avc444Encoder::software(settings)))
        } else {
            assert(open_software.ensures((settings,), false));
            Err(FrameError::Avc444Init)
        }
    }

    /// Creates the encoder of a codec following the policy that was set.
    pub fn new_for_egfx_codec<V, S, W, T>(
        codec: EgfxFrameCodec,
        policy: &Option<EncoderPolicy>,
        settings: EncoderSettings,
        open_vaapi: V,
        open_software: S,
        open_avc444_vaapi: W,
        open_avc444_software: T,
    ) -> (r: Result<Self, FrameError>) where
        V: FnOnce(EncoderSettings) -> Result<VaapiEncoder, VaapiError>,
        S: FnOnce(EncoderSettings) -> bool,
        W: FnOnce(EncoderSettings) -> Option<&'static str>,
        T: FnOnce(EncoderSettings) -> bool,

        requires
            match codec {
                EgfxFrameCodec::Avc420 => may_open(
                    policy_in(*policy),
                    settings,
                    open_vaapi,
                    open_software,
                ),
                EgfxFrameCodec::Avc444 => may_open_avc444(
                    policy_in(*policy),
                    settings,
                    open_avc444_vaapi,
                    open_avc444_software,
                ),
            },
        ensures
            opened_for_codec(
                codec,
                policy_in(*policy),
                settings,
                open_vaapi,
                open_software,
                open_avc444_vaapi,
                open_avc444_software,
                r,
            ),
    {
        match codec {
            EgfxFrameCodec::Avc420 => Self::new(policy, settings, open_vaapi, open_software),
            EgfxFrameCodec::Avc444 => Self::new_avc444(
                policy,
                settings,
                open_avc444_vaapi,
                open_avc444_software,
            ),
        }
    }

    /// Creates the encoder of a codec without hardware.
    pub fn new_software_only_for_egfx_codec<S, T>(
        codec: EgfxFrameCodec,
        settings: EncoderSettings,
        open_software: S,
        open_avc444_software: T,
    ) -> (r: Result<Self, FrameError>) where
        S: FnOnce(EncoderSettings) -> bool,
        T: FnOnce(EncoderSettings) -> bool,

        requires
            codec == EgfxFrameCodec::Avc420 ==> open_software.requires((settings,)),
            codec == EgfxFrameCodec::Avc444 ==> open_avc444_software.requires((settings,)),
        ensures
            match codec {
                EgfxFrameCodec::Avc420 => exists|ok: bool|
                    #[trigger] open_software.ensures((settings,), ok) && r == software_result(
                        settings,
                        ok,
                    ),
                EgfxFrameCodec::Avc444 => exists|ok: bool|
                    #[trigger] open_avc444_software.ensures((settings,), ok) && is_avc444_software(
                        r,
                        settings,
                        ok,
                    ),
            },
    {
        match codec {
            EgfxFrameCodec::Avc420 => Self::new_software_only(settings, open_software),
            EgfxFrameCodec::Avc444 => Self::new_avc444_software_only(
                settings,
                open_avc444_software,
            ),
        }
    }

    /// The name of the backend in use.
    pub fn backend_name(&self) -> (r: &'static str)
        ensures
            r@ == match self {
                FrameEncoder::Vaapi(_) => "vaapi"@,
                FrameEncoder::Software(_) => "ffmpeg-h264"@,
                FrameEncoder::SoftwareAvc444(e) => e.name@,
            },
    {
        match self {
            FrameEncoder::Vaapi(_) => "vaapi",
            FrameEncoder::Software(_) => "ffmpeg-h264",
            FrameEncoder::SoftwareAvc444(e) => e.name,
        }
    }

    /// Whether the backend in use is VA-API.
    pub open spec fn uses_vaapi(&self) -> bool {
        match self {
            FrameEncoder::Vaapi(_) => true,
            FrameEncoder::Software(_) => false,
            FrameEncoder::SoftwareAvc444(e) => e.vaapi,
        }
    }

    /// Whether the backend in use is VA-API.
    pub fn is_vaapi(&self) -> (r: bool)
        ensures
            r == self.uses_vaapi(),
    {
        match self {
            FrameEncoder::Vaapi(_) => true,
            FrameEncoder::Software(_) => false,
            FrameEncoder::SoftwareAvc444(e) => e.vaapi,
        }
    }

    /// The encoder that is asked to start a sequence with the next frame.
    pub open spec fn with_forced_idr(self) -> FrameEncoder {
        match self {
            FrameEncoder::Vaapi(e) => FrameEncoder::Vaapi(VaapiEncoder { force_idr: true, ..e }),
            FrameEncoder::Software(e) => FrameEncoder::Software(
                H264Encoder { force_idr: true, ..e },
            ),
            FrameEncoder::SoftwareAvc444(e) => FrameEncoder::SoftwareAvc444(
                Avc444Encoder { force_idr: true, ..e },
            ),
        }
    }

    /// Forces the next encoded frame to be an IDR (recovery after dropped
    /// frames).
    pub fn force_idr(&mut self)
        ensures
            *final(self) == old(self).with_forced_idr(),
    {
        match self {
            FrameEncoder::Vaapi(e) => e.force_idr(),
            FrameEncoder::Software(e) => e.force_idr = true,
            FrameEncoder::SoftwareAvc444(e) => e.force_idr = true,
        }
    }
}

/// A result of the hardware encoder as a result of the encoder in use.
pub open spec fn from_vaapi(r: Result<Vec<u8>, VaapiError>) -> Result<Vec<u8>, FrameError> {
    match r {
        Ok(data) => Ok(data),
        Err(e) => Err(FrameError::Vaapi(e)),
    }
}

/// How a plain frame ends.
pub open spec fn frame_encoded<S, F>(
    pre: FrameEncoder,
    post: FrameEncoder,
    submit: S,
    software: F,
    r: Result<Vec<u8>, FrameError>,
) -> bool where S: FnOnce(FramePlan) -> SubmitOutcome, F: FnOnce(bool) -> Option<Vec<u8>> {
    match pre {
        FrameEncoder::Vaapi(e) => post is Vaapi && exists|coded: Result<Vec<u8>, VaapiError>|
            #[trigger] e.encoded(post->Vaapi_0, submit, coded) && r == from_vaapi(coded),
        FrameEncoder::Software(e) => exists|coded: Option<Vec<u8>>|
            #[trigger] software.ensures((e.force_idr,), coded) && match coded {
                Some(data) => r == Ok::<Vec<u8>, FrameError>(data) && post
                    == FrameEncoder::Software(H264Encoder { force_idr: false, ..e }),
                None => r == Err::<Vec<u8>, _>(FrameError::SoftwareEncode) && post == pre,
            },
        FrameEncoder::SoftwareAvc444(_) => post == pre && r == Err::<Vec<u8>, _>(
            FrameError::RequiresEncodeAvc444,
        ),
    }
}

/// How an AVC444 frame ends.
pub open spec fn avc444_encoded<T, A>(
    pre: FrameEncoder,
    post: FrameEncoder,
    encode: A,
    r: Result<T, FrameError>,
) -> bool where A: FnOnce(bool) -> Option<T> {
    match pre {
        FrameEncoder::SoftwareAvc444(e) => exists|coded: Option<T>|
            #[trigger] encode.ensures((e.force_idr,), coded) && match coded {
                Some(frame) => r == Ok::<T, FrameError>(frame) && post
                    == FrameEncoder::SoftwareAvc444(Avc444Encoder { force_idr: false, ..e }),
                None => r == Err::<T, _>(FrameError::Avc444Encode) && post == pre,
            },
        FrameEncoder::Vaapi(_) => post == pre && r == Err::<T, _>(
            FrameError::RequiresSoftwareEncoder,
        ),
        FrameEncoder::Software(_) => post == pre && r == Err::<T, _>(
            FrameError::RequiresAvc444Encoder,
        ),
    }
}

/// How a frame of a codec ends.
pub open spec fn egfx_frame_encoded<T, S, F, A>(
    codec: EgfxFrameCodec,
    pre: FrameEncoder,
    post: FrameEncoder,
    submit: S,
    software: F,
    encode_avc444: A,
    r: Result<EncodedEgfxFrame<T>, FrameError>,
) -> bool where
    S: FnOnce(FramePlan) -> SubmitOutcome,
    F: FnOnce(bool) -> Option<Vec<u8>>,
    A: FnOnce(bool) -> Option<T>,
 {
    match codec {
        EgfxFrameCodec::Avc420 => exists|coded: Result<Vec<u8>, FrameError>|
            #[trigger] frame_encoded(pre, post, submit, software, coded) && r == match coded {
                Ok(data) => Ok(EncodedEgfxFrame::<T>::Avc420(data)),
                Err(e) => Err(e),
            },
        EgfxFrameCodec::Avc444 => exists|coded: Result<T, FrameError>|
            #[trigger] avc444_encoded(pre, post, encode_avc444, coded) && r == match coded {
                Ok(frame) => Ok(EncodedEgfxFrame::Avc444(frame)),
                Err(e) => Err(e),
            },
    }
}

impl FrameEncoder {
    /// The calls that a plain frame may make.
    pub open spec fn may_encode<S, F>(&self, submit: S, software: F) -> bool where
        S: FnOnce(FramePlan) -> SubmitOutcome,
        F: FnOnce(bool) -> Option<Vec<u8>>,
     {
        match self {
            FrameEncoder::Vaapi(e) => e.ready() && e.may_encode(submit),
            FrameEncoder::Software(e) => software.requires((e.force_idr,)),
            FrameEncoder::SoftwareAvc444(_) => true,
        }
    }

    /// Encodes a plain frame on the encoder in use. `submit` has the hardware
    /// encode a planned frame, and `software` encodes one, starting a sequence
    /// where it is told to.
    pub fn encode<S, F>(&mut self, submit: S, software: F) -> (r: Result<Vec<u8>, FrameError>) where
        S: FnOnce(FramePlan) -> SubmitOutcome,
        F: FnOnce(bool) -> Option<Vec<u8>>,

        requires
            old(self).may_encode(submit, software),
        ensures
            frame_encoded(*old(self), *final(self), submit, software, r),
    {
        match self {
            FrameEncoder::Vaapi(e) => {
                let coded = e.encode(submit);
                match coded {
                    Ok(data) => Ok(data),
                    Err(error) => Err(FrameError::Vaapi(error)),
                }
            },
            FrameEncoder::Software(e) => {
                let forced: bool = e.force_idr;
                match software(forced) {
                    Some(data) => {
                        assert(software.ensures((forced,), Some(data)));
                        e.force_idr = false;
                        Ok(data)
                    },
                    None => {
                        assert(software.ensures((forced,), None));
                        Err(FrameError::SoftwareEncode)
                    },
                }
            },
            FrameEncoder::SoftwareAvc444(_) => Err(FrameError::RequiresEncodeAvc444),
        }
    }

    /// Encodes an AVC444 frame; any other encoder refuses it. `encode` encodes
    /// one, starting a sequence where it is told to.
    pub fn encode_avc444<T, A>(&mut self, encode: A) -> (r: Result<T, FrameError>) where
        A: FnOnce(bool) -> Option<T>,

        requires
            match *old(self) {
                FrameEncoder::SoftwareAvc444(e) => encode.requires((e.force_idr,)),
                _ => true,
            },
        ensures
            avc444_encoded(*old(self), *final(self), encode, r),
    {
        match self {
            FrameEncoder::SoftwareAvc444(e) => {
                let forced: bool = e.force_idr;
                match encode(forced) {
                    Some(frame) => {
                        assert(encode.ensures((forced,), Some(frame)));
                        e.force_idr = false;
                        Ok(frame)
                    },
                    None => {
                        assert(encode.ensures((forced,), None));
                        Err(FrameError::Avc444Encode)
                    },
                }
            },
            FrameEncoder::Vaapi(_) => Err(FrameError::RequiresSoftwareEncoder),
            FrameEncoder::Software(_) => Err(FrameError::RequiresAvc444Encoder),
        }
    }

    /// Encodes a frame with the codec that the client was told.
    pub fn encode_egfx_frame<T, S, F, A>(
        &mut self,
        codec: EgfxFrameCodec,
        submit: S,
        software: F,
        encode_avc444: A,
    ) -> (r: Result<EncodedEgfxFrame<T>, FrameError>) where
        S: FnOnce(FramePlan) -> SubmitOutcome,
        F: FnOnce(bool) -> Option<Vec<u8>>,
        A: FnOnce(bool) -> Option<T>,

        requires
            match codec {
                EgfxFrameCodec::Avc420 => old(self).may_encode(submit, software),
                EgfxFrameCodec::Avc444 => match *old(self) {
                    FrameEncoder::SoftwareAvc444(e) => encode_avc444.requires((e.force_idr,)),
                    _ => true,
                },
            },
        ensures
            egfx_frame_encoded(
                codec,
                *old(self),
                *final(self),
                submit,
                software,
                encode_avc444,
                r,
            ),
    {
        match codec {
            EgfxFrameCodec::Avc420 => {
                let coded = self.encode(submit, software);
                assert(frame_encoded(*old(self), *self, submit, software, coded));
                match coded {
                    Ok(data) => Ok(EncodedEgfxFrame::Avc420(data)),
                    Err(e) => Err(e),
                }
            },
            EgfxFrameCodec::Avc444 => {
                let coded = self.encode_avc444(encode_avc444);
                assert(avc444_encoded(*old(self), *self, encode_avc444, coded));
                match coded {
                    Ok(frame) => Ok(EncodedEgfxFrame::Avc444(frame)),
                    Err(e) => Err(e),
                }
            },
        }
    }

    /// Encodes from an NV12 buffer of another device (zero-copy path). Only the
    /// VA-API backend can.
    pub fn encode_dmabuf<I, S>(&mut self, frame: DmabufFrame, import: I, submit: S) -> (r: Result<
        Vec<u8>,
        FrameError,
    >) where I: FnOnce(PrimeSurface) -> Option<u32>, S: FnOnce(FramePlan) -> SubmitOutcome
        requires
            match *old(self) {
                FrameEncoder::Vaapi(e) => e.ready() && e.may_encode_dmabuf(frame, import, submit),
                _ => true,
            },
        ensures
            match *old(self) {
                FrameEncoder::Vaapi(e) => *final(self) is Vaapi && exists|
                    coded: Result<Vec<u8>, VaapiError>,
                |
                    #[trigger] e.encoded_dmabuf(
                        final(self)->Vaapi_0,
                        frame,
                        import,
                        submit,
                        coded,
                    ) && r == from_vaapi(coded),
                _ => *final(self) == *old(self) && r == Err::<Vec<u8>, _>(
                    FrameError::RequiresVaapi,
                ),
            },
    {
        match self {
            FrameEncoder::Vaapi(e) => {
                let coded = e.encode_dmabuf(frame, import, submit);
                match coded {
                    Ok(data) => Ok(data),
                    Err(error) => Err(FrameError::Vaapi(error)),
                }
            },
            FrameEncoder::Software(_) => Err(FrameError::RequiresVaapi),
            FrameEncoder::SoftwareAvc444(_) => Err(FrameError::RequiresVaapi),
        }
    }

    /// Has an AVC444 encoder keep its last frame as the reference of the next;
    /// any other encoder has nothing to keep.
    pub fn commit_avc444_reference<C>(&mut self, commit: C) where C: FnOnce()
        requires
            *old(self) is SoftwareAvc444 ==> commit.requires(()),
        ensures
            *final(self) == *old(self),
            *old(self) is SoftwareAvc444 ==> commit.ensures((), ()),
    {
        match self {
            FrameEncoder::SoftwareAvc444(_) => commit(),
            _ => {},
        }
    }
}

/// A policy for software never leads to VA-API, for frames of either codec.
pub proof fn software_policy_never_selects_vaapi<V, S, W, T>(
    settings: EncoderSettings,
    open_vaapi: V,
    open_software: S,
    open_avc444_vaapi: W,
    open_avc444_software: T,
    r: Result<FrameEncoder, FrameError>,
    r444: Result<FrameEncoder, FrameError>,
) where
    V: FnOnce(EncoderSettings) -> Result<VaapiEncoder, VaapiError>,
    S: FnOnce(EncoderSettings) -> bool,
    W: FnOnce(EncoderSettings) -> Option<&'static str>,
    T: FnOnce(EncoderSettings) -> bool,

    requires
        opened(EncoderPolicy::Software, settings, open_vaapi, open_software, r),
        opened_avc444(
            EncoderPolicy::Software,
            settings,
            open_avc444_vaapi,
            open_avc444_software,
            r444,
        ),
    ensures
        r is Ok ==> !r->Ok_0.uses_vaapi(),
        r444 is Ok ==> !r444->Ok_0.uses_vaapi(),
{
}

/// A policy for VA-API never falls back to software.
pub proof fn vaapi_policy_never_falls_back<V, S>(
    settings: EncoderSettings,
    open_vaapi: V,
    open_software: S,
    r: Result<FrameEncoder, FrameError>,
) where
    V: FnOnce(EncoderSettings) -> Result<VaapiEncoder, VaapiError>,
    S: FnOnce(EncoderSettings) -> bool,

    requires
        opened(EncoderPolicy::Vaapi, settings, open_vaapi, open_software, r),
    ensures
        r is Ok ==> r->Ok_0.uses_vaapi(),
{
}

/// Hardware is used wherever it can be opened and software is not asked for.
pub proof fn hardware_comes_first<V, S>(
    policy: EncoderPolicy,
    settings: EncoderSettings,
    open_vaapi: V,
    open_software: S,
    r: Result<FrameEncoder, FrameError>,
) where
    V: FnOnce(EncoderSettings) -> Result<VaapiEncoder, VaapiError>,
    S: FnOnce(EncoderSettings) -> bool,

    requires
        opened(policy, settings, open_vaapi, open_software, r),
        policy != EncoderPolicy::Software,
        forall|o: Result<VaapiEncoder, VaapiError>| #[trigger]
            open_vaapi.ensures((settings,), o) ==> o is Ok,
    ensures
        match r {
            Ok(FrameEncoder::Vaapi(encoder)) => open_vaapi.ensures((settings,), Ok(encoder)),
            _ => false,
        },
{
}

/// Where hardware cannot be opened and is not required, or is not asked for, software is
/// used with the same settings; where that cannot be opened either, there is no encoder.
pub proof fn software_comes_second<V, S>(
    policy: EncoderPolicy,
    settings: EncoderSettings,
    open_vaapi: V,
    open_software: S,
    r: Result<FrameEncoder, FrameError>,
    opens: bool,
) where
    V: FnOnce(EncoderSettings) -> Result<VaapiEncoder, VaapiError>,
    S: FnOnce(EncoderSettings) -> bool,

    requires
        opened(policy, settings, open_vaapi, open_software, r),
        policy != EncoderPolicy::Vaapi,
        policy == EncoderPolicy::Auto ==> forall|o: Result<VaapiEncoder, VaapiError>| #[trigger]
            open_vaapi.ensures((settings,), o) ==> o is Err,
        forall|o: bool| #[trigger] open_software.ensures((settings,), o) ==> o == opens,
    ensures
        match r {
            Ok(FrameEncoder::Software(encoder)) => opens && encoder.settings == settings
                && !encoder.force_idr,
            Err(FrameError::SoftwareInit) => !opens,
            _ => false,
        },
{
}

/// AVC444 follows the same order: hardware by the name of its backend, then software.
pub proof fn avc444_follows_the_same_order<V, S>(
    policy: EncoderPolicy,
    settings: EncoderSettings,
    open_vaapi: V,
    open_software: S,
    r: Result<FrameEncoder, FrameError>,
    found: Option<&'static str>,
    opens: bool,
) where
    V: FnOnce(EncoderSettings) -> Option<&'static str>,
    S: FnOnce(EncoderSettings) -> bool,

    requires
        opened_avc444(policy, settings, open_vaapi, open_software, r),
        forall|o: Option<&'static str>| #[trigger]
            open_vaapi.ensures((settings,), o) ==> o == found,
        forall|o: bool| #[trigger] open_software.ensures((settings,), o) ==> o == opens,
    ensures
        match r {
            Ok(FrameEncoder::SoftwareAvc444(e)) => {
                &&& e.settings == settings && !e.force_idr
                &&& e.vaapi <==> policy != EncoderPolicy::Software && found is Some
                &&& e.vaapi ==> Some(e.name) == found
                &&& !e.vaapi ==> opens && policy != EncoderPolicy::Vaapi && e.name@
                    == "ffmpeg-avc444"@
            },
            Err(FrameError::VaapiAvc444Required) => policy == EncoderPolicy::Vaapi
                && found is None,
            Err(FrameError::Avc444Init) => !opens && policy != EncoderPolicy::Vaapi && (policy
                == EncoderPolicy::Software || found is None),
            _ => false,
        },
{
}

/// A software frame is coded as a new sequence where one was asked for, and what was
/// coded is the result; the request is used up by a frame that was coded, and by no
/// other.
pub proof fn a_software_frame_uses_up_the_request<S, F>(
    e: H264Encoder,
    post: FrameEncoder,
    submit: S,
    software: F,
    r: Result<Vec<u8>, FrameError>,
) where S: FnOnce(FramePlan) -> SubmitOutcome, F: FnOnce(bool) -> Option<Vec<u8>>
    requires
        frame_encoded(FrameEncoder::Software(e), post, submit, software, r),
    ensures
        match (r, post) {
            (Ok(data), FrameEncoder::Software(after)) => {
                &&& software.ensures((e.force_idr,), Some(data))
                &&& !after.force_idr && after.settings == e.settings
            },
            (Err(FrameError::SoftwareEncode), FrameEncoder::Software(after)) => {
                &&& software.ensures((e.force_idr,), None)
                &&& after == e
            },
            _ => false,
        },
{
}

/// An AVC444 frame does the same.
pub proof fn an_avc444_frame_uses_up_the_request<T, A>(
    e: Avc444Encoder,
    post: FrameEncoder,
    encode: A,
    r: Result<T, FrameError>,
) where A: FnOnce(bool) -> Option<T>
    requires
        avc444_encoded(FrameEncoder::SoftwareAvc444(e), post, encode, r),
    ensures
        match (r, post) {
            (Ok(frame), FrameEncoder::SoftwareAvc444(after)) => {
                &&& encode.ensures((e.force_idr,), Some(frame))
                &&& !after.force_idr && after.settings == e.settings
                &&& after.name == e.name && after.vaapi == e.vaapi
            },
            (Err(FrameError::Avc444Encode), FrameEncoder::SoftwareAvc444(after)) => {
                &&& encode.ensures((e.force_idr,), None)
                &&& after == e
            },
            _ => false,
        },
{
}

/// An encoder refuses frames of the other kind, and stays as it was.
pub proof fn frames_of_the_other_kind_are_refused<T, S, F, A>(
    pre: FrameEncoder,
    post: FrameEncoder,
    after: FrameEncoder,
    submit: S,
    software: F,
    encode: A,
    plain: Result<Vec<u8>, FrameError>,
    avc444: Result<T, FrameError>,
) where
    S: FnOnce(FramePlan) -> SubmitOutcome,
    F: FnOnce(bool) -> Option<Vec<u8>>,
    A: FnOnce(bool) -> Option<T>,

    requires
        frame_encoded(pre, post, submit, software, plain),
        avc444_encoded(pre, after, encode, avc444),
    ensures
        match pre {
            FrameEncoder::SoftwareAvc444(_) => {
                &&& post == pre
                &&& plain == Err::<Vec<u8>, _>(FrameError::RequiresEncodeAvc444)
            },
            FrameEncoder::Software(_) => {
                &&& after == pre
                &&& avc444 == Err::<T, _>(FrameError::RequiresAvc444Encoder)
            },
            FrameEncoder::Vaapi(_) => {
                &&& after == pre && post is Vaapi
                &&& avc444 == Err::<T, _>(FrameError::RequiresSoftwareEncoder)
            },
        },
{
}

/// A request for a new sequence is remembered until the next frame and changes nothing
/// else.
pub proof fn a_request_for_a_new_sequence_is_remembered(e: FrameEncoder)
    ensures
        match (e, e.with_forced_idr()) {
            (FrameEncoder::Vaapi(a), FrameEncoder::Vaapi(b)) => {
                &&& b.force_idr
                &&& b.same_setup(a)
                &&& b.frame_count == a.frame_count && b.references == a.references
                &&& b.cached_sps_pps == a.cached_sps_pps && b.idr_pic_id == a.idr_pic_id
                &&& b.current_input_surface == a.current_input_surface
                &&& b.current_recon_surface == a.current_recon_surface
                &&& b.current_coded_buffer == a.current_coded_buffer
                &&& b.dmabuf_input_surface == a.dmabuf_input_surface
            },
            (FrameEncoder::Software(a), FrameEncoder::Software(b)) => b.force_idr && b.settings
                == a.settings,
            (FrameEncoder::SoftwareAvc444(a), FrameEncoder::SoftwareAvc444(b)) => b.force_idr
                && b.settings == a.settings && b.name == a.name && b.vaapi == a.vaapi,
            _ => false,
        },
        e.with_forced_idr().uses_vaapi() == e.uses_vaapi(),
{
}

/// The policy in force is the one that was set, and automatic before.
pub proof fn the_policy_in_force(policy: EncoderPolicy)
    ensures
        policy_in(Some(policy)) == policy,
        policy_in(None) == EncoderPolicy::Auto,
{
}

/// A codec is encoded by an encoder of its own kind.
pub proof fn each_codec_has_its_own_encoder<V, S, W, T>(
    codec: EgfxFrameCodec,
    policy: EncoderPolicy,
    settings: EncoderSettings,
    open_vaapi: V,
    open_software: S,
    open_avc444_vaapi: W,
    open_avc444_software: T,
    r: Result<FrameEncoder, FrameError>,
) where
    V: FnOnce(EncoderSettings) -> Result<VaapiEncoder, VaapiError>,
    S: FnOnce(EncoderSettings) -> bool,
    W: FnOnce(EncoderSettings) -> Option<&'static str>,
    T: FnOnce(EncoderSettings) -> bool,

    requires
        opened_for_codec(
            codec,
            policy,
            settings,
            open_vaapi,
            open_software,
            open_avc444_vaapi,
            open_avc444_software,
            r,
        ),
    ensures
        r is Ok ==> (r->Ok_0 is SoftwareAvc444 <==> codec == EgfxFrameCodec::Avc444),
        codec == EgfxFrameCodec::Avc420 ==> opened(
            policy,
            settings,
            open_vaapi,
            open_software,
            r,
        ),
        codec == EgfxFrameCodec::Avc444 ==> opened_avc444(
            policy,
            settings,
            open_avc444_vaapi,
            open_avc444_software,
            r,
        ),
{
}

/// What the hardware encoder coded is the result, and its error is passed on.
pub proof fn hardware_frames_are_passed_on<S, F>(
    e: VaapiEncoder,
    post: FrameEncoder,
    submit: S,
    software: F,
    r: Result<Vec<u8>, FrameError>,
) where S: FnOnce(FramePlan) -> SubmitOutcome, F: FnOnce(bool) -> Option<Vec<u8>>
    requires
        frame_encoded(FrameEncoder::Vaapi(e), post, submit, software, r),
    ensures
        match (r, post) {
            (Ok(data), FrameEncoder::Vaapi(after)) => e.encoded(after, submit, Ok(data)),
            (Err(FrameError::Vaapi(error)), FrameEncoder::Vaapi(after)) => e.encoded(
                after,
                submit,
                Err(error),
            ),
            _ => false,
        },
{
}

/// A frame is coded with the codec that is asked for, and is given as one of that codec.
pub proof fn each_frame_is_of_its_codec<T, S, F, A>(
    codec: EgfxFrameCodec,
    pre: FrameEncoder,
    post: FrameEncoder,
    submit: S,
    software: F,
    encode_avc444: A,
    r: Result<EncodedEgfxFrame<T>, FrameError>,
) where
    S: FnOnce(FramePlan) -> SubmitOutcome,
    F: FnOnce(bool) -> Option<Vec<u8>>,
    A: FnOnce(bool) -> Option<T>,

    requires
        egfx_frame_encoded(codec, pre, post, submit, software, encode_avc444, r),
    ensures
        match (codec, r) {
            (EgfxFrameCodec::Avc420, Ok(EncodedEgfxFrame::Avc420(data))) => frame_encoded(
                pre,
                post,
                submit,
                software,
                Ok(data),
            ),
            (EgfxFrameCodec::Avc420, Err(e)) => frame_encoded(
                pre,
                post,
                submit,
                software,
                Err(e),
            ),
            (EgfxFrameCodec::Avc444, Ok(EncodedEgfxFrame::Avc444(frame))) => avc444_encoded(
                pre,
                post,
                encode_avc444,
                Ok(frame),
            ),
            (EgfxFrameCodec::Avc444, Err(e)) => avc444_encoded::<T, A>(
                pre,
                post,
                encode_avc444,
                Err(e),
            ),
            _ => false,
        },
{
}

} // verus!
