//! What a client's requests for a size come to.
use vstd::prelude::*;

use super::display::{
    answers_first_size, answers_layout, is_started, low_word, monitor_rule, started_headless,
    started_on,
    CaptureInfo, DesktopSize, DisplayConfig, DisplayError, HyprDisplay, HyprDisplayInner,
    ReuseOutcome,
};
use super::limits::{
    accepted_sizes_are_kept, clamped, clamped_sizes_are_accepted, scaled_side,
    scaling_is_exact_to_a_128th, times_ratio,
};
use super::monitors::{
    first_primary, headless_size, lemma_first_primary, lemma_no_primary, physical_size,
    MonitorEntry,
};
use super::resize::{
    clamped_size, initial_decision, layout_decision, startup_size, ResizeDecision, ResizeTarget,
};
use crate::config::{
    a_written_resolution_is_read_back, resolution_of, resolution_text, ConfigProblem,
};

verus! {

/// A size that the software encoder takes as it is: even sides, and at most 3840 pixels
/// along the longer and 2160 along the shorter one.
pub open spec fn is_encodable(size: (u32, u32)) -> bool {
    &&& 0 < size.0 <= 3840 && 0 < size.1 <= 3840
    &&& size.0 <= 2160 || size.1 <= 2160
    &&& size.0 % 2 == 0 && size.1 % 2 == 0
}

/// A decision to resize a headless output to a size.
pub open spec fn resizes_output(d: Option<ResizeDecision>, size: (u32, u32)) -> bool {
    match d {
        Some(d) => d.target == ResizeTarget::ManagedHeadlessOutput && d.width == size.0 && d.height
            == size.1,
        None => false,
    }
}

/// A decision to present a physical output at a size.
pub open spec fn presents_output(d: Option<ResizeDecision>, size: (u32, u32)) -> bool {
    match d {
        Some(d) => d.target == ResizeTarget::PhysicalPresentation && d.width == size.0 && d.height
            == size.1,
        None => false,
    }
}

/// A source whose size is known and not empty.
pub open spec fn is_known(source: Option<(u32, u32)>) -> bool {
    match source {
        Some((w, h)) => w > 0 && h > 0,
        None => false,
    }
}

/// Without a fixed resolution, a headless session takes a client's first size as it is,
/// larger or smaller; an empty size and the current one change nothing.
pub proof fn a_headless_session_takes_the_first_size(
    current: (u32, u32),
    requested: (u32, u32),
    source: Option<(u32, u32)>,
)
    ensures
        requested.0 > 0 && requested.1 > 0 && requested != current ==> resizes_output(
            initial_decision(false, false, current, requested, source),
            requested,
        ),
        requested.0 == 0 || requested.1 == 0 || requested == current ==> initial_decision(
            false,
            false,
            current,
            requested,
            source,
        ) is None,
{
}

/// Without a fixed resolution, a physical output is presented at a client's first size
/// as it is, where the encoder takes that; an unknown or empty output, and the current
/// size, change nothing.
pub proof fn a_physical_output_takes_the_first_size(
    current: (u32, u32),
    requested: (u32, u32),
    source: Option<(u32, u32)>,
)
    ensures
        is_encodable(requested) && requested != current && is_known(source) ==> presents_output(
            initial_decision(true, false, current, requested, source),
            requested,
        ),
        !is_known(source) || requested.0 < 2 || requested.1 < 2 || (is_encodable(requested)
            && requested == current) ==> initial_decision(
            true,
            false,
            current,
            requested,
            source,
        ) is None,
{
    lemma_encodable(requested);
}

proof fn lemma_encodable(size: (u32, u32))
    ensures
        is_encodable(size) ==> clamped_size(size) == size,
{
    if is_encodable(size) {
        accepted_sizes_are_kept(size.0 as int, size.1 as int);
    }
}

/// A layout that a client asks for is that of its primary monitor, the first where
/// several are marked, or of the first monitor where none is: a headless session takes
/// its size as it is, where the encoder takes that.
pub proof fn a_headless_session_takes_the_primary_monitor(
    monitors: Seq<MonitorEntry>,
    at: int,
    current: (u32, u32),
    source: Option<(u32, u32)>,
)
    requires
        0 <= at < monitors.len(),
        ({
            ||| monitors[at].is_primary && forall|j: int|
                0 <= j < at ==> !(#[trigger] monitors[j]).is_primary
            ||| at == 0 && forall|j: int|
                0 <= j < monitors.len() ==> !(#[trigger] monitors[j]).is_primary
        }),
    ensures
        headless_size(monitors) == Some(monitors[at].dimensions),
        is_encodable(monitors[at].dimensions) && monitors[at].dimensions != current
            ==> resizes_output(
            layout_decision(monitors, false, false, current, source),
            monitors[at].dimensions,
        ),
        monitors[at].dimensions.0 < 2 || monitors[at].dimensions.1 < 2 || (is_encodable(
            monitors[at].dimensions,
        ) && monitors[at].dimensions == current) ==> layout_decision(
            monitors,
            false,
            false,
            current,
            source,
        ) is None,
{
    lemma_encodable(monitors[at].dimensions);
    if monitors[at].is_primary {
        lemma_first_primary(monitors, at);
    } else {
        lemma_no_primary(monitors);
    }
}

/// A physical output follows a layout only of one monitor, primary, at the origin,
/// upright, and of at most 9216000 pixels; then it is presented at the monitor's size as
/// it is, where the encoder takes that.
pub proof fn a_physical_output_takes_one_plain_monitor(
    monitors: Seq<MonitorEntry>,
    current: (u32, u32),
    source: (u32, u32),
)
    requires
        source.0 > 0,
        source.1 > 0,
    ensures
        ({
            let plain = {
                &&& monitors.len() == 1
                &&& monitors[0].is_primary
                &&& match monitors[0].position {
                    Some((left, top)) => left == 0 && top == 0,
                    None => false,
                }
                &&& monitors[0].orientation != Some(90u32)
                &&& monitors[0].orientation != Some(180u32)
                &&& monitors[0].orientation != Some(270u32)
                &&& monitors[0].dimensions.0 * monitors[0].dimensions.1 <= 9_216_000
            };
            &&& plain ==> physical_size(monitors) == Some(monitors[0].dimensions)
            &&& !plain ==> physical_size(monitors) is None
            &&& !plain ==> layout_decision(monitors, true, false, current, Some(source)) is None
            &&& plain && is_encodable(monitors[0].dimensions) && monitors[0].dimensions != current
                ==> presents_output(
                layout_decision(monitors, true, false, current, Some(source)),
                monitors[0].dimensions,
            )
        }),
        layout_decision(monitors, true, false, current, None) is None,
{
    if monitors.len() > 0 {
        lemma_encodable(monitors[0].dimensions);
    }
}

/// A layout without monitors changes nothing.
pub proof fn no_monitors_change_nothing(
    physical: bool,
    fixed: bool,
    current: (u32, u32),
    source: Option<(u32, u32)>,
)
    ensures
        layout_decision(Seq::<MonitorEntry>::empty(), physical, fixed, current, source) is None,
{
    assert(first_primary(Seq::<MonitorEntry>::empty()) is None);
}

/// A headless session starts with the configured size; a physical output starts with
/// its own, or with a fixed one, as it is where the encoder takes that.
pub proof fn what_a_session_starts_with(
    fixed: bool,
    configured: (u32, u32),
    source: (u32, u32),
)
    ensures
        startup_size(false, fixed, configured, source) == configured,
        is_encodable(source) ==> startup_size(true, false, configured, source) == source,
        is_encodable(configured) && source.0 > 0 && source.1 > 0 ==> startup_size(
            true,
            true,
            configured,
            source,
        ) == configured,
        source.0 == 0 || source.1 == 0 ==> startup_size(true, fixed, configured, source) == (
            0u32,
            0u32,
        ),
{
    lemma_encodable(source);
    lemma_encodable(configured);
}

/// Whatever is asked for, the size that is used is empty or one that the encoder takes,
/// and not larger than what was asked for. One that is taken is kept, and so is an odd
/// one but for its last pixel. One that is too large is scaled by the smaller of the two
/// ratios of a limit to a side.
pub proof fn what_the_encoder_makes_of_a_size(w: u32, h: u32)
    ensures
        ({
            let (cw, ch) = clamped(w as int, h as int);
            let ew = w - w % 2;
            let eh = h - h % 2;
            let long = if ew >= eh {
                ew
            } else {
                eh
            };
            let short = if ew >= eh {
                eh
            } else {
                ew
            };
            &&& 0 <= cw <= w && 0 <= ch <= h
            &&& w >= 2 && h >= 2 ==> is_encodable((cw as u32, ch as u32))
            &&& w < 2 || h < 2 ==> cw == ew && ch == eh
            &&& long <= 3840 && short <= 2160 ==> cw == ew && ch == eh
            &&& w >= 2 && h >= 2 && !(long <= 3840 && short <= 2160) && 3840 * short <= 2160 * long
                ==> {
                &&& is_scaled_side(ew, cw, 3840, long)
                &&& is_scaled_side(eh, ch, 3840, long)
            }
            &&& w >= 2 && h >= 2 && !(long <= 3840 && short <= 2160) && 3840 * short > 2160 * long
                ==> {
                &&& is_scaled_side(ew, cw, 2160, short)
                &&& is_scaled_side(eh, ch, 2160, short)
            }
        }),
{
    clamped_sizes_are_accepted(w as int, h as int);
    let ew = w - w % 2;
    let eh = h - h % 2;
    let long = if ew >= eh {
        ew
    } else {
        eh
    };
    let short = if ew >= eh {
        eh
    } else {
        ew
    };
    if w >= 2 && h >= 2 && !(long <= 3840 && short <= 2160) {
        if 3840 * short <= 2160 * long {
            lemma_is_scaled_side(ew, 3840, long);
            lemma_is_scaled_side(eh, 3840, long);
        } else {
            lemma_is_scaled_side(ew, 2160, short);
            lemma_is_scaled_side(eh, 2160, short);
        }
    }
}

/// A side scaled by `n / d`, which is known to a 128th of a pixel, then rounded down to
/// an even number of pixels, of which two are kept.
pub open spec fn is_scaled_side(from: int, to: int, n: int, d: int) -> bool {
    exists|v: int|
        128 * (from * n) - 129 * d < 128 * (#[trigger] (v * d)) <= 128 * (from * n) + d && to
            == if v >= 2 {
            v - v % 2
        } else {
            2
        }
}

proof fn lemma_is_scaled_side(from: int, n: int, d: int)
    requires
        0 < from < 0x1_0000_0000,
        0 < n < d < 0x1_0000_0000,
        n <= 3840,
    ensures
        is_scaled_side(from, scaled_side(times_ratio(from, n, d)), n, d),
{
    scaling_is_exact_to_a_128th(from, n, d);
    let v = times_ratio(from, n, d);
    assert(128 * (from * n) - 129 * d < 128 * (v * d) <= 128 * (from * n) + d);
}

/// A display starts with the output and the encoder settings that it was configured
/// with, at the size that was worked out for it, and with nothing announced.
pub proof fn a_display_starts_as_configured(
    display: HyprDisplay,
    config: DisplayConfig,
    info: CaptureInfo,
    size: (u32, u32),
)
    requires
        is_started(display, config, info, size),
    ensures
        ({
            let d = display.inner;
            &&& d.width == size.0 % 0x1_0000 && d.height == size.1 % 0x1_0000
            &&& d.resolution == size
            &&& d.capture_mode == config.capture_mode
            &&& d.output_name == info.output_name
            &&& d.bitrate == config.bitrate
            &&& d.quality == config.quality
            &&& d.rate_control == config.rate_control
            &&& d.fps == config.fps
            &&& d.output == config.output
            &&& d.resolution_fixed == config.resolution_fixed
            &&& d.pending_initial_resize is None
            &&& d.graphics is Some && d.graphics->0.surface_size is None
                && d.graphics->0.resize_prepared is None
        }),
{
}

/// A resize that is carried out gives the session the size that was decided, tells it to
/// the client and, where there is one, to the graphics channel, which also prepares for
/// it; nothing else changes. One that is not carried out changes nothing.
pub proof fn what_a_resize_changes<H, L>(
    pre: HyprDisplayInner,
    post: HyprDisplayInner,
    d: ResizeDecision,
    resize: H,
    refresh: L,
    r: Option<DesktopSize>,
) where H: FnOnce(String, u32, u32) -> bool, L: FnOnce(String, (u32, u32)) -> bool
    requires
        pre.applied(post, d, resize, refresh, r),
    ensures
        r is None ==> post == pre,
        r is Some ==> {
            &&& post.resolution.0 == d.width && post.resolution.1 == d.height
            &&& post.width == d.width % 0x1_0000 && post.height == d.height % 0x1_0000
            &&& r->0.width == post.width && r->0.height == post.height
            &&& pre.graphics is Some ==> post.graphics is Some
                && post.graphics->0.surface_size == Some((post.width, post.height))
                && post.graphics->0.resize_prepared == Some((post.width, post.height))
            &&& pre.graphics is None ==> post.graphics is None
            &&& post.output_name == pre.output_name && post.output == pre.output
            &&& post.bitrate == pre.bitrate && post.quality == pre.quality
            &&& post.rate_control == pre.rate_control && post.fps == pre.fps
            &&& post.capture_mode == pre.capture_mode
            &&& post.resolution_fixed == pre.resolution_fixed
            &&& post.pending_initial_resize == pre.pending_initial_resize
            &&& refresh.ensures((pre.output_name, (d.width, d.height)), true)
            &&& d.target == ResizeTarget::ManagedHeadlessOutput ==> resize.ensures(
                (pre.output_name, d.width, d.height),
                true,
            )
        },
{
}

/// A display decides by its own state: a physical output where it has one, and the
/// resolution that it has. What a client asks for first is brought within the limits of
/// the encoder, which an even size within them already is.
pub proof fn a_display_decides_by_its_state(
    display: HyprDisplay,
    client: DesktopSize,
    monitors: Seq<MonitorEntry>,
    source: Option<(u32, u32)>,
)
    ensures
        ({
            let (w, h) = clamped(client.width as int, client.height as int);
            display.decides_initially(client, source) == initial_decision(
                display.inner.output is Some,
                display.inner.resolution_fixed,
                display.inner.resolution,
                (w as u32, h as u32),
                source,
            )
        }),
        is_encodable((client.width as u32, client.height as u32))
            ==> display.decides_initially(client, source) == initial_decision(
            display.inner.output is Some,
            display.inner.resolution_fixed,
            display.inner.resolution,
            (client.width as u32, client.height as u32),
            source,
        ),
        display.decides_for(monitors, source) == layout_decision(
            monitors,
            display.inner.output is Some,
            display.inner.resolution_fixed,
            display.inner.resolution,
            source,
        ),
{
    lemma_encodable((client.width as u32, client.height as u32));
}

/// The rule for a headless output names the output, then a mode whose size is read back
/// as it was given, at 60 Hz, left of all other outputs and unscaled.
pub proof fn a_monitor_rule_is_read_back(name: Seq<char>, width: u32, height: u32)
    requires
        2 <= width <= 65535,
        2 <= height <= 65535,
        width % 2 == 0,
        height % 2 == 0,
    ensures
        ({
            let size = resolution_text(width, height);
            &&& resolution_of(size) == Ok::<(u32, u32), ConfigProblem>((width, height))
            &&& monitor_rule(name, width, height) == name + ","@ + size + "@60,-9999x0,1"@
        }),
{
    reveal_strlit("x");
    reveal_strlit("@60");
    reveal_strlit(",-9999x0,1");
    reveal_strlit("@60,-9999x0,1");
    a_written_resolution_is_read_back(width, height);
    assert("x"@ =~= seq!['x']);
    let size = resolution_text(width, height);
    assert(monitor_rule(name, width, height) =~= name + ","@ + size + "@60,-9999x0,1"@);
}

/// A client's first size is answered with the size that the session then has: the one
/// that was decided where everything could be carried out, which is then kept for the
/// capture to come, and otherwise the one it had.
pub proof fn how_the_first_size_is_answered<H, L>(
    pre: HyprDisplay,
    post: HyprDisplay,
    client: DesktopSize,
    source: Option<(u32, u32)>,
    resize: H,
    refresh: L,
    r: DesktopSize,
) where H: FnOnce(String, u32, u32) -> bool, L: FnOnce(String, (u32, u32)) -> bool
    requires
        answers_first_size(pre, post, client, source, resize, refresh, r),
    ensures
        r.width == post.inner.width && r.height == post.inner.height,
        pre.decides_initially(client, source) is None ==> post == pre,
        match pre.decides_initially(client, source) {
            Some(d) => {
                ||| post == pre
                ||| {
                    &&& post.inner.resolution.0 == d.width && post.inner.resolution.1 == d.height
                    &&& post.inner.width == d.width % 0x1_0000
                    &&& post.inner.height == d.height % 0x1_0000
                    &&& post.inner.pending_initial_resize == Some(r)
                    &&& refresh.ensures((pre.inner.output_name, (d.width, d.height)), true)
                    &&& post.inner.output_name == pre.inner.output_name
                    &&& post.inner.output == pre.inner.output
                }
            },
            None => true,
        },
{
    if let Some(d) = pre.decides_initially(client, source) {
        let (applied, made) = choose|applied: HyprDisplayInner, made: Option<DesktopSize>|
            {
                &&& #[trigger] pre.inner.applied(applied, d, resize, refresh, made)
                &&& post.inner == (HyprDisplayInner {
                    pending_initial_resize: if made is Some {
                        made
                    } else {
                        applied.pending_initial_resize
                    },
                    ..applied
                })
            };
        what_a_resize_changes(pre.inner, applied, d, resize, refresh, made);
        if made is None {
            assert(post.inner == pre.inner);
            assert(post == pre);
        }
    }
}

/// Where every outside call succeeds, what was decided is carried out.
pub proof fn decisions_are_carried_out<H, L>(
    pre: HyprDisplay,
    post: HyprDisplay,
    monitors: Seq<MonitorEntry>,
    source: Option<(u32, u32)>,
    resize: H,
    refresh: L,
    r: Option<DesktopSize>,
) where H: FnOnce(String, u32, u32) -> bool, L: FnOnce(String, (u32, u32)) -> bool
    requires
        answers_layout(pre, post, monitors, source, resize, refresh, r),
        forall|n: String, w: u32, h: u32, ok: bool| #[trigger] resize.ensures((n, w, h), ok) ==> ok,
        forall|n: String, s: (u32, u32), ok: bool| #[trigger] refresh.ensures((n, s), ok) ==> ok,
    ensures
        match pre.decides_for(monitors, source) {
            Some(d) => {
                &&& r is Some
                &&& post.inner.resolution.0 == d.width && post.inner.resolution.1 == d.height
                &&& r->0.width == d.width % 0x1_0000 && r->0.height == d.height % 0x1_0000
            },
            None => r is None && post == pre,
        },
{
}

/// A display without a physical output starts at the configured size, where the encoder
/// takes that, and reports it.
pub proof fn a_headless_display_has_the_configured_size<S, R, C, I, L>(
    config: DisplayConfig,
    list_stale: S,
    reuse: R,
    create: C,
    output_info: I,
    initialize_layout: L,
    r: Result<(HyprDisplay, (u16, u16)), DisplayError>,
) where
    S: FnOnce() -> Vec<String>,
    R: FnOnce(String, String, (u32, u32)) -> ReuseOutcome,
    C: FnOnce((u32, u32)) -> Option<String>,
    I: FnOnce(String) -> Option<CaptureInfo>,
    L: FnOnce(String, (u32, u32)) -> bool,

    requires
        config.output is None,
        is_encodable(config.resolution),
        started_headless(
            config,
            list_stale,
            reuse,
            create,
            output_info,
            initialize_layout,
            r,
        ),
        r is Ok,
    ensures
        match r {
            Ok((display, size)) => {
                &&& display.inner.resolution == config.resolution
                &&& size.0 == config.resolution.0 && size.1 == config.resolution.1
                &&& display.inner.width == size.0 && display.inner.height == size.1
            },
            Err(_) => false,
        },
{
    lemma_encodable(config.resolution);
}

/// A leftover output is reused, the first one and at the configured size; an output is
/// created, at that size, only where none is left over.
pub proof fn where_a_headless_display_starts<S, R, C, I, L>(
    config: DisplayConfig,
    list_stale: S,
    reuse: R,
    create: C,
    output_info: I,
    initialize_layout: L,
    r: Result<(HyprDisplay, (u16, u16)), DisplayError>,
    stale: Vec<String>,
) where
    S: FnOnce() -> Vec<String>,
    R: FnOnce(String, String, (u32, u32)) -> ReuseOutcome,
    C: FnOnce((u32, u32)) -> Option<String>,
    I: FnOnce(String) -> Option<CaptureInfo>,
    L: FnOnce(String, (u32, u32)) -> bool,

    requires
        is_encodable(config.resolution),
        started_headless(
            config,
            list_stale,
            reuse,
            create,
            output_info,
            initialize_layout,
            r,
        ),
        forall|list: Vec<String>| #[trigger] list_stale.ensures((), list) ==> list == stale,
    ensures
        stale@.len() > 0 ==> exists|rule: String, outcome: ReuseOutcome|
            {
                &&& #[trigger] reuse.ensures((stale@[0], rule, config.resolution), outcome)
                &&& rule@ == stale@[0]@ + ","@ + resolution_text(
                    config.resolution.0,
                    config.resolution.1,
                ) + "@60,-9999x0,1"@
                &&& match outcome {
                    ReuseOutcome::Ready => started_on(
                        config,
                        stale@[0],
                        output_info,
                        initialize_layout,
                        r,
                    ),
                    ReuseOutcome::NotResized => r is Err && r->Err_0
                        == DisplayError::ReuseHeadlessOutput,
                    ReuseOutcome::NotReady => r is Err && r->Err_0
                        == DisplayError::ReusedOutputNotReady,
                }
            },
        stale@.len() == 0 ==> exists|made: Option<String>|
            {
                &&& #[trigger] create.ensures((config.resolution,), made)
                &&& match made {
                    Some(name) => started_on(config, name, output_info, initialize_layout, r),
                    None => r is Err && r->Err_0 == DisplayError::CreateHeadlessOutput,
                }
            },
{
    lemma_encodable(config.resolution);
    a_monitor_rule_is_read_back(stale@[0]@, config.resolution.0, config.resolution.1);
}

/// A display starts on an output that could be asked for its size and laid out, and is
/// named as the output said; otherwise the start fails with the step that failed.
pub proof fn a_display_starts_on_an_output<I, L>(
    config: DisplayConfig,
    name: String,
    output_info: I,
    initialize_layout: L,
    r: Result<(HyprDisplay, (u16, u16)), DisplayError>,
) where I: FnOnce(String) -> Option<CaptureInfo>, L: FnOnce(String, (u32, u32)) -> bool
    requires
        started_on(config, name, output_info, initialize_layout, r),
    ensures
        match r {
            Ok((display, size)) => exists|info: CaptureInfo|
                {
                    &&& #[trigger] output_info.ensures((name,), Some(info))
                    &&& initialize_layout.ensures((name, display.inner.resolution), true)
                    &&& display.inner.output_name == info.output_name
                    &&& size.0 == display.inner.resolution.0 % 0x1_0000
                    &&& size.1 == display.inner.resolution.1 % 0x1_0000
                },
            Err(DisplayError::OutputInfo) => output_info.ensures((name,), None),
            Err(DisplayError::InitializeLayout) => exists|info: CaptureInfo, size: (u32, u32)|
                #[trigger] output_info.ensures((name,), Some(info))
                    && #[trigger] initialize_layout.ensures((name, size), false),
            Err(_) => false,
        },
{
    let found = choose|info: Option<CaptureInfo>|
        #[trigger] output_info.ensures((name,), info) && match info {
            None => r == Err::<(HyprDisplay, (u16, u16)), _>(DisplayError::OutputInfo),
            Some(info) => {
                let size = startup_size(
                    config.output is Some,
                    config.resolution_fixed,
                    clamped_size(config.resolution),
                    (info.width, info.height),
                );
                exists|ok: bool|
                    #[trigger] initialize_layout.ensures((name, size), ok) && if ok {
                        r is Ok && is_started(r->Ok_0.0, config, info, size) && r->Ok_0.1 == (
                            low_word(size.0),
                            low_word(size.1),
                        )
                    } else {
                        r == Err::<(HyprDisplay, (u16, u16)), _>(DisplayError::InitializeLayout)
                    }
            },
        };
    if let Some(info) = found {
        assert(output_info.ensures((name,), Some(info)));
    }
}

/// A display of a physical output starts at the output's own size, or at a fixed one,
/// where the encoder takes that, and on the output that was asked for.
pub proof fn a_physical_display_has_its_own_size<I, L>(
    config: DisplayConfig,
    name: String,
    output_info: I,
    initialize_layout: L,
    r: Result<(HyprDisplay, (u16, u16)), DisplayError>,
    info: CaptureInfo,
) where I: FnOnce(String) -> Option<CaptureInfo>, L: FnOnce(String, (u32, u32)) -> bool
    requires
        config.output == Some(name),
        started_on(config, name, output_info, initialize_layout, r),
        forall|found: Option<CaptureInfo>| #[trigger]
            output_info.ensures((name,), found) ==> found == Some(info),
        forall|n: String, s: (u32, u32), ok: bool| #[trigger]
            initialize_layout.ensures((n, s), ok) ==> ok,
        is_encodable((info.width, info.height)),
        is_encodable(config.resolution),
    ensures
        match r {
            Ok((display, size)) => {
                let wanted = if config.resolution_fixed {
                    config.resolution
                } else {
                    (info.width, info.height)
                };
                &&& display.inner.resolution == wanted
                &&& size.0 == wanted.0 && size.1 == wanted.1
                &&& display.inner.output_name == info.output_name
                &&& initialize_layout.ensures((name, wanted), true)
            },
            Err(_) => false,
        },
{
    lemma_encodable(config.resolution);
    lemma_encodable((info.width, info.height));
}

/// The same holds of a client's first size.
pub proof fn first_sizes_are_carried_out<H, L>(
    pre: HyprDisplay,
    post: HyprDisplay,
    client: DesktopSize,
    source: Option<(u32, u32)>,
    resize: H,
    refresh: L,
    r: DesktopSize,
) where H: FnOnce(String, u32, u32) -> bool, L: FnOnce(String, (u32, u32)) -> bool
    requires
        answers_first_size(pre, post, client, source, resize, refresh, r),
        forall|n: String, w: u32, h: u32, ok: bool| #[trigger] resize.ensures((n, w, h), ok) ==> ok,
        forall|n: String, s: (u32, u32), ok: bool| #[trigger] refresh.ensures((n, s), ok) ==> ok,
    ensures
        match pre.decides_initially(client, source) {
            Some(d) => {
                &&& post.inner.resolution.0 == d.width && post.inner.resolution.1 == d.height
                &&& r.width == d.width % 0x1_0000 && r.height == d.height % 0x1_0000
                &&& post.inner.pending_initial_resize == Some(r)
            },
            None => r.width == pre.inner.width && r.height == pre.inner.height,
        },
{
}

/// A size that the encoder does not take as it is leads to the one that it makes of it.
pub proof fn other_sizes_are_brought_within_the_limits(
    monitors: Seq<MonitorEntry>,
    current: (u32, u32),
    requested: (u32, u32),
    source: (u32, u32),
)
    requires
        source.0 > 0,
        source.1 > 0,
        requested.0 >= 2,
        requested.1 >= 2,
    ensures
        ({
            let (w, h) = clamped(requested.0 as int, requested.1 as int);
            let size = (w as u32, h as u32);
            &&& is_encodable(size)
            &&& startup_size(true, false, current, requested) == size
            &&& startup_size(true, true, requested, source) == size
            &&& size == current ==> initial_decision(
                true,
                false,
                current,
                requested,
                Some(source),
            ) is None
            &&& size != current ==> presents_output(
                initial_decision(true, false, current, requested, Some(source)),
                size,
            )
            &&& monitors.len() == 1 && monitors[0].dimensions == requested ==> (size == current
                ==> layout_decision(monitors, false, false, current, None) is None) && (size
                != current ==> resizes_output(
                layout_decision(monitors, false, false, current, None),
                size,
            ))
        }),
{
    what_the_encoder_makes_of_a_size(requested.0, requested.1);
    clamped_sizes_are_accepted(requested.0 as int, requested.1 as int);
    if monitors.len() == 1 {
        reveal_with_fuel(first_primary, 2);
    }
}

/// A capture that starts brings the name of its output and the size of the presentation,
/// or of the output while no layout is known; nothing else changes.
pub proof fn what_a_capture_brings(
    pre: HyprDisplayInner,
    info: CaptureInfo,
    presentation: Option<(u32, u32)>,
)
    ensures
        ({
            let post = pre.after_capture(info, presentation);
            &&& post.output_name == info.output_name
            &&& presentation is Some ==> post.resolution == presentation->0
            &&& presentation is None ==> post.resolution == (info.width, info.height)
            &&& post.width == post.resolution.0 % 0x1_0000
            &&& post.height == post.resolution.1 % 0x1_0000
            &&& post.graphics == pre.graphics && post.output == pre.output
            &&& post.pending_initial_resize == pre.pending_initial_resize
            &&& post.resolution_fixed == pre.resolution_fixed
            &&& post.bitrate == pre.bitrate && post.quality == pre.quality
            &&& post.rate_control == pre.rate_control && post.fps == pre.fps
            &&& post.capture_mode == pre.capture_mode
        }),
{
}

} // verus!
