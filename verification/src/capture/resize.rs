//! When and to what size a session is resized.
use ironrdp_displaycontrol::pdu::DisplayControlMonitorLayout;
use vstd::prelude::*;

use super::limits::{
    clamp_to_h264_software_limits, clamped, clamped_sizes_are_accepted, clamping_is_idempotent,
    within_limits,
};
use super::monitors::{
    headless_display_control_size, headless_size, layout_monitors, monitors_of,
    physical_display_control_size, physical_size, MonitorEntry,
};

verus! {

/// What a resize changes.
#[derive(Clone, Copy, Debug, PartialEq, Eq, Structural)]
pub enum ResizeTarget {
    ManagedHeadlessOutput,
    PhysicalPresentation,
}

/// A resize that is to be made.
#[derive(Clone, Copy, Debug, PartialEq, Eq, Structural)]
pub struct ResizeDecision {
    pub target: ResizeTarget,
    pub width: u32,
    pub height: u32,
}

/// `size` within the limits of the encoder.
pub open spec fn clamped_size(size: (u32, u32)) -> (u32, u32) {
    let (w, h) = clamped(size.0 as int, size.1 as int);
    (w as u32, h as u32)
}

/// The size at which a physical output of size `source` is presented where
/// `requested` is asked for; empty where either is empty.
pub open spec fn presented_size(requested: (u32, u32), source: (u32, u32)) -> (u32, u32) {
    let size = clamped_size(requested);
    if size.0 == 0 || size.1 == 0 || source.0 == 0 || source.1 == 0 {
        (0, 0)
    } else {
        size
    }
}

/// The size that a session starts with.
pub open spec fn startup_size(
    physical_output: bool,
    resolution_fixed: bool,
    configured: (u32, u32),
    source: (u32, u32),
) -> (u32, u32) {
    if !physical_output {
        configured
    } else if resolution_fixed {
        presented_size(configured, source)
    } else {
        presented_size(source, source)
    }
}

/// The resize to `size`, unless that is empty or already current.
pub open spec fn resize_to(physical_output: bool, current: (u32, u32), size: (u32, u32)) -> Option<
    ResizeDecision,
> {
    if size.0 == 0 || size.1 == 0 || size == current {
        None
    } else {
        Some(
            ResizeDecision {
                target: if physical_output {
                    ResizeTarget::PhysicalPresentation
                } else {
                    ResizeTarget::ManagedHeadlessOutput
                },
                width: size.0,
                height: size.1,
            },
        )
    }
}

/// What a client's first size leads to. A fixed resolution is never left, and a
/// physical output is not touched while its size is unknown.
pub open spec fn initial_decision(
    physical_output: bool,
    resolution_fixed: bool,
    current: (u32, u32),
    requested: (u32, u32),
    source: Option<(u32, u32)>,
) -> Option<ResizeDecision> {
    if resolution_fixed {
        None
    } else if !physical_output {
        resize_to(false, current, requested)
    } else {
        match source {
            Some(source) => resize_to(true, current, presented_size(requested, source)),
            None => None,
        }
    }
}

/// What a monitor layout leads to.
pub open spec fn layout_decision(
    monitors: Seq<MonitorEntry>,
    physical_output: bool,
    resolution_fixed: bool,
    current: (u32, u32),
    source: Option<(u32, u32)>,
) -> Option<ResizeDecision> {
    if resolution_fixed {
        None
    } else if !physical_output {
        match headless_size(monitors) {
            Some(size) => resize_to(false, current, clamped_size(size)),
            None => None,
        }
    } else {
        match (physical_size(monitors), source) {
            (Some(size), Some(source)) => resize_to(true, current, presented_size(size, source)),
            _ => None,
        }
    }
}

/// Clamps a requested presentation size to the encoder's limits and even
/// dimensions. Aspect mismatches are letterboxed by the presentation scaler, so
/// the requested size is otherwise kept as it is.
pub fn normalize_presentation_size(requested_size: (u32, u32), source_size: (u32, u32)) -> (r: (
    u32,
    u32,
))
    ensures
        r == presented_size(requested_size, source_size),
{
    let (width, height) = clamp_to_h264_software_limits(requested_size.0, requested_size.1);
    if width == 0 || height == 0 || source_size.0 == 0 || source_size.1 == 0 {
        return (0, 0);
    }
    (width, height)
}

/// The size that a session starts with.
pub fn startup_presentation_size(
    physical_output: bool,
    resolution_fixed: bool,
    configured_resolution: (u32, u32),
    source_size: (u32, u32),
) -> (r: (u32, u32))
    ensures
        r == startup_size(physical_output, resolution_fixed, configured_resolution, source_size),
{
    let requested = if physical_output && !resolution_fixed {
        source_size
    } else {
        configured_resolution
    };
    if physical_output {
        normalize_presentation_size(requested, source_size)
    } else {
        requested
    }
}

fn decide(physical_output: bool, current: (u32, u32), width: u32, height: u32) -> (r: Option<
    ResizeDecision,
>)
    ensures
        r == resize_to(physical_output, current, (width, height)),
{
    if width == 0 || height == 0 || (width == current.0 && height == current.1) {
        return None;
    }
    Some(
        ResizeDecision {
            target: if physical_output {
                ResizeTarget::PhysicalPresentation
            } else {
                ResizeTarget::ManagedHeadlessOutput
            },
            width,
            height,
        },
    )
}

/// What a client's first size leads to.
pub fn initial_size_resize_decision(
    physical_output: bool,
    resolution_fixed: bool,
    current_resolution: (u32, u32),
    requested_size: (u32, u32),
    source_size: Option<(u32, u32)>,
) -> (r: Option<ResizeDecision>)
    ensures
        r == initial_decision(
            physical_output,
            resolution_fixed,
            current_resolution,
            requested_size,
            source_size,
        ),
{
    if resolution_fixed {
        return None;
    }
    let (width, height): (u32, u32) = if physical_output {
        match source_size {
            Some(source) => normalize_presentation_size(requested_size, source),
            None => return None,
        }
    } else {
        requested_size
    };
    decide(physical_output, current_resolution, width, height)
}

/// What the monitors that a client asks for lead to.
pub fn monitors_resize_decision(
    monitors: &[MonitorEntry],
    physical_output: bool,
    resolution_fixed: bool,
    current_resolution: (u32, u32),
    source_size: Option<(u32, u32)>,
) -> (r: Option<ResizeDecision>)
    ensures
        r == layout_decision(
            monitors@,
            physical_output,
            resolution_fixed,
            current_resolution,
            source_size,
        ),
{
    if resolution_fixed {
        return None;
    }
    let requested = if physical_output {
        physical_display_control_size(monitors)
    } else {
        headless_display_control_size(monitors)
    };
    let requested = match requested {
        Some(size) => size,
        None => return None,
    };
    let (width, height): (u32, u32) = if physical_output {
        match source_size {
            Some(source) => normalize_presentation_size(requested, source),
            None => return None,
        }
    } else {
        clamp_to_h264_software_limits(requested.0, requested.1)
    };
    decide(physical_output, current_resolution, width, height)
}

/// What a monitor layout of the display control channel leads to.
pub fn display_control_resize_decision(
    layout: &DisplayControlMonitorLayout,
    physical_output: bool,
    resolution_fixed: bool,
    current_resolution: (u32, u32),
    source_size: Option<(u32, u32)>,
) -> (r: Option<ResizeDecision>)
    ensures
        r == layout_decision(
            layout_monitors(*layout),
            physical_output,
            resolution_fixed,
            current_resolution,
            source_size,
        ),
{
    let monitors = monitors_of(layout);
    monitors_resize_decision(
        monitors.as_slice(),
        physical_output,
        resolution_fixed,
        current_resolution,
        source_size,
    )
}

proof fn lemma_clamped_size(size: (u32, u32))
    ensures
        clamped_size(clamped_size(size)) == clamped_size(size),
        ({
            let c = clamped_size(size);
            &&& c.0 % 2 == 0 && c.1 % 2 == 0
            &&& c.0 == 0 || c.1 == 0 || within_limits(c.0 as int, c.1 as int)
        }),
{
    clamped_sizes_are_accepted(size.0 as int, size.1 as int);
    clamping_is_idempotent(size.0 as int, size.1 as int);
}

/// The negotiation of the first size ends at once: a client that asks again for
/// the size it was given causes no further resize.
pub proof fn initial_size_negotiation_ends(
    physical_output: bool,
    resolution_fixed: bool,
    current: (u32, u32),
    requested: (u32, u32),
    source: Option<(u32, u32)>,
)
    ensures
        match initial_decision(physical_output, resolution_fixed, current, requested, source) {
            Some(d) => initial_decision(
                physical_output,
                resolution_fixed,
                (d.width, d.height),
                (d.width, d.height),
                source,
            ) is None,
            None => true,
        },
{
    lemma_clamped_size(requested);
}

/// The negotiation by monitor layouts ends at once: a client that asks again for
/// monitors of the size it was given causes no further resize.
pub proof fn layout_negotiation_ends(
    monitors: Seq<MonitorEntry>,
    echo: Seq<MonitorEntry>,
    physical_output: bool,
    resolution_fixed: bool,
    current: (u32, u32),
    source: Option<(u32, u32)>,
)
    ensures
        match layout_decision(monitors, physical_output, resolution_fixed, current, source) {
            Some(d) => headless_size(echo) == Some((d.width, d.height)) ==> layout_decision(
                echo,
                physical_output,
                resolution_fixed,
                (d.width, d.height),
                source,
            ) is None,
            None => true,
        },
{
    if let Some(size) = headless_size(monitors) {
        lemma_clamped_size(size);
    }
    if let Some(size) = physical_size(monitors) {
        lemma_clamped_size(size);
    }
    if echo.len() == 1 {
        reveal_with_fuel(super::monitors::first_primary, 2);
    }
}

/// Every resize of a physical output, and every resize by a monitor layout, is
/// to a size that the encoder accepts.
pub proof fn resizes_are_within_limits(
    monitors: Seq<MonitorEntry>,
    physical_output: bool,
    resolution_fixed: bool,
    current: (u32, u32),
    requested: (u32, u32),
    source: Option<(u32, u32)>,
)
    ensures
        match layout_decision(monitors, physical_output, resolution_fixed, current, source) {
            Some(d) => d.width % 2 == 0 && d.height % 2 == 0 && d.width > 0 && d.height > 0
                && within_limits(d.width as int, d.height as int),
            None => true,
        },
        match initial_decision(true, resolution_fixed, current, requested, source) {
            Some(d) => d.width % 2 == 0 && d.height % 2 == 0 && d.width > 0 && d.height > 0
                && within_limits(d.width as int, d.height as int),
            None => true,
        },
{
    lemma_clamped_size(requested);
    if let Some(size) = headless_size(monitors) {
        lemma_clamped_size(size);
    }
    if let Some(size) = physical_size(monitors) {
        lemma_clamped_size(size);
    }
}

/// A fixed resolution is never left.
pub proof fn a_fixed_resolution_is_never_left(
    monitors: Seq<MonitorEntry>,
    physical_output: bool,
    current: (u32, u32),
    requested: (u32, u32),
    source: Option<(u32, u32)>,
)
    ensures
        initial_decision(physical_output, true, current, requested, source) is None,
        layout_decision(monitors, physical_output, true, current, source) is None,
{
}

} // verus!
