//! The monitor layout that a client asks for.
use ironrdp_displaycontrol::pdu::DisplayControlMonitorLayout;
use vstd::prelude::*;

verus! {

/// The largest area, in pixels, that a physical output is presented at.
pub const DISPLAYCONTROL_MAX_PRESENTATION_AREA: u64 = 9_216_000;

/// What is looked at of a monitor that a client asks for.
#[derive(Clone, Copy, Debug, PartialEq, Eq)]
pub struct MonitorEntry {
    pub is_primary: bool,
    /// Left and top, where they are valid.
    pub position: Option<(i32, i32)>,
    pub dimensions: (u32, u32),
    /// The angle in degrees, where it is valid.
    pub orientation: Option<u32>,
}

/// A monitor layout of the display control channel.
#[verifier::external_type_specification]
#[verifier::external_body]
pub struct ExDisplayControlMonitorLayout(DisplayControlMonitorLayout);

/// The monitors of a layout, in its order.
pub uninterp spec fn layout_monitors(layout: DisplayControlMonitorLayout) -> Seq<MonitorEntry>;

/// The monitors of a layout, by `DisplayControlMonitorLayout::monitors`.
///
/// Each entry is read through `is_primary`, `position`, `dimensions` and
/// `orientation` of `MonitorLayoutEntry`, the orientation as its `angle`. These
/// only look at the entry, so a layout always has the same monitors.
#[verifier::external_body]
pub(crate) fn monitors_of(layout: &DisplayControlMonitorLayout) -> (r: Vec<MonitorEntry>)
    ensures
        r@ == layout_monitors(*layout),
{
    layout.monitors().iter().map(|m| MonitorEntry {
        is_primary: m.is_primary(),
        position: m.position(),
        dimensions: m.dimensions(),
        orientation: m.orientation().map(|o| o.angle()),
    }).collect()
}

/// The place of the first primary monitor, if there is one.
pub open spec fn first_primary(monitors: Seq<MonitorEntry>) -> Option<int>
    decreases monitors.len(),
{
    if monitors.len() == 0 {
        None
    } else if first_primary(monitors.drop_last()) is Some {
        first_primary(monitors.drop_last())
    } else if monitors.last().is_primary {
        Some(monitors.len() - 1)
    } else {
        None
    }
}

/// The size of the primary monitor, or of the first without one.
pub open spec fn headless_size(monitors: Seq<MonitorEntry>) -> Option<(u32, u32)> {
    match first_primary(monitors) {
        Some(i) => Some(monitors[i].dimensions),
        None => if monitors.len() > 0 {
            Some(monitors[0].dimensions)
        } else {
            None
        },
    }
}

/// Whether a monitor is turned out of its natural position.
pub open spec fn is_turned(orientation: Option<u32>) -> bool {
    orientation == Some(90u32) || orientation == Some(180u32) || orientation == Some(270u32)
}

/// The size of the one monitor, where it is a primary one at the origin, upright
/// and not too large.
pub open spec fn physical_size(monitors: Seq<MonitorEntry>) -> Option<(u32, u32)> {
    if monitors.len() == 1 && monitors[0].is_primary && monitors[0].position == Some((0i32, 0i32))
        && !is_turned(monitors[0].orientation) && monitors[0].dimensions.0
        * monitors[0].dimensions.1 <= DISPLAYCONTROL_MAX_PRESENTATION_AREA {
        Some(monitors[0].dimensions)
    } else {
        None
    }
}

pub(crate) proof fn lemma_first_primary(monitors: Seq<MonitorEntry>, n: int)
    requires
        0 <= n < monitors.len(),
        monitors[n].is_primary,
        forall|j: int| 0 <= j < n ==> !monitors[j].is_primary,
    ensures
        first_primary(monitors) == Some(n),
    decreases monitors.len(),
{
    if n < monitors.len() - 1 {
        lemma_first_primary(monitors.drop_last(), n);
    } else {
        lemma_no_primary(monitors.drop_last());
    }
}

pub(crate) proof fn lemma_no_primary(monitors: Seq<MonitorEntry>)
    requires
        forall|j: int| 0 <= j < monitors.len() ==> !monitors[j].is_primary,
    ensures
        first_primary(monitors) is None,
    decreases monitors.len(),
{
    if monitors.len() > 0 {
        lemma_no_primary(monitors.drop_last());
    }
}

/// The size that a headless output is given for a layout.
pub fn headless_display_control_size(monitors: &[MonitorEntry]) -> (r: Option<(u32, u32)>)
    ensures
        r == headless_size(monitors@),
{
    let mut i: usize = 0;
    while i < monitors.len()
        invariant
            i <= monitors.len(),
            forall|j: int| 0 <= j < i ==> !monitors@[j].is_primary,
        decreases monitors.len() - i,
    {
        if monitors[i].is_primary {
            proof {
                lemma_first_primary(monitors@, i as int);
            }
            return Some(monitors[i].dimensions);
        }
        i = i + 1;
    }
    proof {
        lemma_no_primary(monitors@);
    }
    if monitors.len() > 0 {
        Some(monitors[0].dimensions)
    } else {
        None
    }
}

/// The size that a physical output is presented at for a layout.
pub fn physical_display_control_size(monitors: &[MonitorEntry]) -> (r: Option<(u32, u32)>)
    ensures
        r == physical_size(monitors@),
{
    if monitors.len() != 1 {
        return None;
    }
    let monitor = monitors[0];
    if !monitor.is_primary {
        return None;
    }
    match monitor.position {
        Some((left, top)) => {
            if left != 0 || top != 0 {
                return None;
            }
        },
        None => return None,
    }
    match monitor.orientation {
        Some(angle) => {
            if angle == 90 || angle == 180 || angle == 270 {
                return None;
            }
        },
        None => {},
    }
    let (width, height): (u32, u32) = monitor.dimensions;
    proof {
        assert(0 <= width * height <= 0xffff_ffff * 0xffff_ffff) by (nonlinear_arith)
            requires
                width <= 0xffff_ffff,
                height <= 0xffff_ffff,
        ;
    }
    if width as u64 * height as u64 > DISPLAYCONTROL_MAX_PRESENTATION_AREA {
        return None;
    }
    Some((width, height))
}

} // verus!
