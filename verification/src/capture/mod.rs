pub mod display;
pub mod limits;
pub mod monitors;
pub mod negotiation;
pub mod picture;
pub mod resize;
pub mod scale;

use vstd::prelude::*;

verus! {

/// The protocol that frames are captured by.
#[derive(Clone, Copy, Debug, PartialEq, Eq, Structural)]
pub enum CaptureMode {
    /// ext-image-copy-capture-v1
    Ext,
    /// wlr-screencopy-v1
    Wlr,
}

impl CaptureMode {
    /// The protocol's name.
    pub fn protocol_name(self) -> (r: &'static str)
        ensures
            r@ == match self {
                CaptureMode::Ext => "ext-image-copy-capture-v1"@,
                CaptureMode::Wlr => "wlr-screencopy-v1"@,
            },
    {
        match self {
            CaptureMode::Ext => "ext-image-copy-capture-v1",
            CaptureMode::Wlr => "wlr-screencopy-v1",
        }
    }
}

} // verus!
