//! What encoders and codecs may be chosen.
use vstd::prelude::*;

verus! {

/// Which EGFX codec is offered to clients.
#[derive(Clone, Copy, Debug, PartialEq, Eq, Structural)]
pub enum EgfxCodecPolicy {
    Auto,
    Avc420,
    Avc444,
}

/// Which H.264 backend encoder creation is allowed to pick.
#[derive(Clone, Copy, Debug, PartialEq, Eq, Structural)]
pub enum EncoderPolicy {
    /// Try VA-API, fall back to software.
    Auto,
    /// Never try VA-API.
    Software,
    /// Require VA-API; encoder creation fails if it is unavailable.
    Vaapi,
}

impl Default for EncoderPolicy {
    fn default() -> (r: Self)
        ensures
            r == EncoderPolicy::Auto,
    {
        EncoderPolicy::Auto
    }
}

/// Sets the process-wide encoder policy. It is set once: a later policy is
/// ignored.
pub fn set_encoder_policy(slot: &mut Option<EncoderPolicy>, policy: EncoderPolicy)
    ensures
        *final(slot) == if *old(slot) is Some {
            *old(slot)
        } else {
            Some(policy)
        },
{
    if slot.is_none() {
        *slot = Some(policy);
    }
}

/// The policy in force.
pub open spec fn policy_in(slot: Option<EncoderPolicy>) -> EncoderPolicy {
    match slot {
        Some(policy) => policy,
        None => EncoderPolicy::Auto,
    }
}

/// The process-wide encoder policy; automatic until one is set.
pub fn encoder_policy(slot: &Option<EncoderPolicy>) -> (r: EncoderPolicy)
    ensures
        r == policy_in(*slot),
{
    match slot {
        Some(policy) => *policy,
        None => EncoderPolicy::default(),
    }
}

} // verus!
