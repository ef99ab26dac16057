//! Which coded pictures a frame may refer to.
use vstd::prelude::*;

verus! {

/// A coded picture that is kept for reference.
#[derive(Clone, Copy, Debug, PartialEq, Eq, Structural)]
pub struct DpbEntry {
    pub surface_id: u32,
    pub frame_num: u16,
    pub poc: i32,
}

/// The two H.264 pictures that carry one AVC444 frame.
#[derive(Clone, Copy, Debug, PartialEq, Eq, Structural)]
pub enum VaapiAvc444Subframe {
    Luma,
    Chroma,
}

/// What a picture is encoded for.
#[derive(Clone, Copy, Debug, PartialEq, Eq, Structural)]
pub enum VaapiEncodeRole {
    Generic,
    Avc444(VaapiAvc444Subframe),
}

/// How pictures refer to each other.
#[derive(Clone, Copy, Debug, PartialEq, Eq, Structural)]
pub enum VaapiReferenceMode {
    Single,
    Avc444Subframes,
}

impl VaapiReferenceMode {
    /// One reference frame, in either mode.
    pub fn max_num_ref_frames(self) -> (r: u32)
        ensures
            r == 1,
    {
        1
    }

    /// One surface more than there are references, so that the picture being
    /// coded never takes the place of its own reference.
    pub fn recon_surface_pool_size(self) -> (r: usize)
        ensures
            r == 2,
    {
        self.max_num_ref_frames() as usize + 1
    }

    /// Only a plain sequence inserts IDR pictures at a fixed cadence.
    pub fn uses_periodic_idr(self) -> (r: bool)
        ensures
            r == (self == VaapiReferenceMode::Single),
    {
        match self {
            VaapiReferenceMode::Single => true,
            VaapiReferenceMode::Avc444Subframes => false,
        }
    }
}

/// The pictures recorded since the last IDR.
#[derive(Clone, Copy, Debug, PartialEq, Eq, Structural)]
pub struct VaapiReferenceState {
    pub last: Option<DpbEntry>,
    pub avc444_luma: Option<DpbEntry>,
    pub avc444_chroma: Option<DpbEntry>,
}

/// No picture recorded.
pub open spec fn no_references() -> VaapiReferenceState {
    VaapiReferenceState { last: None, avc444_luma: None, avc444_chroma: None }
}

impl Default for VaapiReferenceState {
    fn default() -> (r: Self)
        ensures
            r == no_references(),
    {
        VaapiReferenceState { last: None, avc444_luma: None, avc444_chroma: None }
    }
}

impl VaapiReferenceState {
    /// The state after `entry` is recorded for `role`.
    pub open spec fn recorded(self, role: VaapiEncodeRole, entry: DpbEntry) -> VaapiReferenceState {
        VaapiReferenceState {
            last: Some(entry),
            avc444_luma: if role == VaapiEncodeRole::Avc444(VaapiAvc444Subframe::Luma) {
                Some(entry)
            } else {
                self.avc444_luma
            },
            avc444_chroma: if role == VaapiEncodeRole::Avc444(VaapiAvc444Subframe::Chroma) {
                Some(entry)
            } else {
                self.avc444_chroma
            },
        }
    }

    /// The pictures that a frame of any role refers to: the one before it.
    pub open spec fn frames(self) -> Seq<DpbEntry> {
        match self.last {
            Some(entry) => seq![entry],
            None => seq![],
        }
    }

    /// Forgets every picture.
    pub fn clear(&mut self)
        ensures
            *final(self) == no_references(),
    {
        self.last = None;
        self.avc444_luma = None;
        self.avc444_chroma = None;
    }

    /// The picture recorded last, whatever the role.
    pub fn primary_reference(&self, role: VaapiEncodeRole) -> (r: Option<DpbEntry>)
        ensures
            r == self.last,
    {
        self.last
    }

    /// Everything a frame refers to.
    pub fn reference_frames(&self, mode: VaapiReferenceMode, role: VaapiEncodeRole) -> (r: Vec<
        DpbEntry,
    >)
        ensures
            r@ == self.frames(),
    {
        let mut refs: Vec<DpbEntry> = Vec::new();
        if let Some(reference) = self.primary_reference(role) {
            refs.push(reference);
        }
        assert(refs@ =~= self.frames());
        refs
    }

    /// Keeps a coded picture for reference.
    pub fn record(&mut self, role: VaapiEncodeRole, entry: DpbEntry)
        ensures
            *final(self) == old(self).recorded(role, entry),
    {
        self.last = Some(entry);
        match role {
            VaapiEncodeRole::Generic => {},
            VaapiEncodeRole::Avc444(VaapiAvc444Subframe::Luma) => {
                self.avc444_luma = Some(entry);
            },
            VaapiEncodeRole::Avc444(VaapiAvc444Subframe::Chroma) => {
                self.avc444_chroma = Some(entry);
            },
        }
    }
}

/// Whatever the two pictures were coded for, a frame refers to the picture
/// recorded last and to no other: luma and chroma pictures form one sequence.
pub proof fn the_last_picture_is_the_only_reference(
    state: VaapiReferenceState,
    first: VaapiEncodeRole,
    second: VaapiEncodeRole,
    a: DpbEntry,
    b: DpbEntry,
)
    ensures
        state.recorded(first, a).frames() == seq![a],
        state.recorded(first, a).recorded(second, b).frames() == seq![b],
{
}

/// A picture is remembered as the last one, and as the last of its own kind.
pub proof fn what_is_remembered_of_a_picture(
    state: VaapiReferenceState,
    role: VaapiEncodeRole,
    entry: DpbEntry,
)
    ensures
        state.recorded(role, entry).last == Some(entry),
        match role {
            VaapiEncodeRole::Generic => {
                &&& state.recorded(role, entry).avc444_luma == state.avc444_luma
                &&& state.recorded(role, entry).avc444_chroma == state.avc444_chroma
            },
            VaapiEncodeRole::Avc444(VaapiAvc444Subframe::Luma) => {
                &&& state.recorded(role, entry).avc444_luma == Some(entry)
                &&& state.recorded(role, entry).avc444_chroma == state.avc444_chroma
            },
            VaapiEncodeRole::Avc444(VaapiAvc444Subframe::Chroma) => {
                &&& state.recorded(role, entry).avc444_luma == state.avc444_luma
                &&& state.recorded(role, entry).avc444_chroma == Some(entry)
            },
        },
        no_references().last is None && no_references().avc444_luma is None
            && no_references().avc444_chroma is None,
{
}

} // verus!
