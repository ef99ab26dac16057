//! The display of a session: its size, and how requests to change it end.
//!
//! Outputs are resized and input layouts refreshed by whoever owns the
//! compositor connection. The functions here take those calls as arguments, and
//! state in their `requires` which of them may be made.
use ironrdp_displaycontrol::pdu::DisplayControlMonitorLayout;
use vstd::prelude::*;

use super::limits::{clamp_to_h264_software_limits, within_limits};
use super::monitors::{layout_monitors, monitors_of, MonitorEntry};
use super::resize::{
    clamped_size, initial_decision, initial_size_resize_decision, layout_decision,
    monitors_resize_decision, startup_presentation_size, startup_size, ResizeDecision,
    ResizeTarget,
};
use super::CaptureMode;
use crate::egfx::rate_control::H264RateControl;
use crate::text::{decimal, push_decimal};

verus! {

/// A desktop size as clients know it.
#[derive(Clone, Copy, Debug, PartialEq, Eq, Structural)]
pub struct DesktopSize {
    pub width: u16,
    pub height: u16,
}

/// What a display is asked for.
pub struct DisplayConfig {
    pub resolution: (u32, u32),
    pub capture_mode: CaptureMode,
    pub bitrate: u32,
    pub quality: u8,
    pub rate_control: H264RateControl,
    pub fps: u32,
    pub resolution_fixed: bool,
    /// The physical output to show; a headless one is made without it.
    pub output: Option<String>,
}

/// An output as the compositor describes it.
pub struct CaptureInfo {
    pub output_name: String,
    pub width: u32,
    pub height: u32,
}

/// Why there is no display.
#[derive(Clone, Copy, Debug, PartialEq, Eq, Structural)]
pub enum DisplayError {
    /// A leftover headless output could not be given its size.
    ReuseHeadlessOutput,
    /// A leftover headless output did not reach its size.
    ReusedOutputNotReady,
    /// A headless output could not be created, or did not reach its size.
    CreateHeadlessOutput,
    OutputInfo,
    InitializeLayout,
}

impl DisplayError {
    /// The error in words, where `cause` is what the compositor said: part of the
    /// words where there are no others, else behind them as their source.
    pub open spec fn words(self, cause: Seq<char>) -> Seq<char> {
        match self {
            DisplayError::ReuseHeadlessOutput => "failed to resize reused headless output"@,
            DisplayError::ReusedOutputNotReady | DisplayError::CreateHeadlessOutput => cause,
            DisplayError::OutputInfo => "failed to get initial output dimensions"@,
            DisplayError::InitializeLayout => "failed to initialize input layout for output"@,
        }
    }

    /// The error in words, where `cause` is what the compositor said.
    pub fn message(&self, cause: &str) -> (r: String)
        ensures
            r@ == self.words(cause@),
    {
        let words = match self {
            DisplayError::ReuseHeadlessOutput => "failed to resize reused headless output",
            DisplayError::ReusedOutputNotReady | DisplayError::CreateHeadlessOutput => cause,
            DisplayError::OutputInfo => "failed to get initial output dimensions",
            DisplayError::InitializeLayout => "failed to initialize input layout for output",
        };
        words.to_owned()
    }
}

/// What became of a leftover headless output.
#[derive(Clone, Copy, Debug, PartialEq, Eq, Structural)]
pub enum ReuseOutcome {
    /// It has the size asked for.
    Ready,
    /// The compositor refused the rule.
    NotResized,
    /// It did not reach the size in time.
    NotReady,
}

/// The graphics channel, as far as the display tells it anything.
#[derive(Clone, Copy, Debug, PartialEq, Eq)]
pub struct GraphicsChannel {
    /// The size that it was last told.
    pub surface_size: Option<(u16, u16)>,
    /// The size that it was last told to prepare a resize for.
    pub resize_prepared: Option<(u16, u16)>,
}

/// The state of a display.
pub struct HyprDisplayInner {
    pub width: u16,
    pub height: u16,
    pub resolution: (u32, u32),
    pub capture_mode: CaptureMode,
    pub output_name: String,
    /// The graphics channel, where there is one.
    pub graphics: Option<GraphicsChannel>,
    pub bitrate: u32,
    pub quality: u8,
    pub rate_control: H264RateControl,
    pub fps: u32,
    pub output: Option<String>,
    pub resolution_fixed: bool,
    pub pending_initial_resize: Option<DesktopSize>,
}

/// The display that clients see.
pub struct HyprDisplay {
    pub inner: HyprDisplayInner,
}

/// The low sixteen bits of a dimension.
pub open spec fn low_word(v: u32) -> u16 {
    (v % 0x1_0000) as u16
}

fn to_word(v: u32) -> (r: u16)
    ensures
        r == low_word(v),
{
    (v % 0x1_0000) as u16
}

/// The desktop size for a resolution.
pub open spec fn desktop_size(size: (u32, u32)) -> DesktopSize {
    DesktopSize { width: low_word(size.0), height: low_word(size.1) }
}

/// The mode of a headless output: its size at 60 Hz.
pub open spec fn mode_text(width: u32, height: u32) -> Seq<char> {
    decimal(width as nat) + "x"@ + decimal(height as nat) + "@60"@
}

/// The compositor's rule that gives a headless output its size, left of all
/// other outputs.
pub open spec fn monitor_rule(name: Seq<char>, width: u32, height: u32) -> Seq<char> {
    name + ","@ + mode_text(width, height) + ",-9999x0,1"@
}

/// The rule that gives a headless output its size.
pub fn headless_monitor_rule(name: &str, width: u32, height: u32) -> (r: String)
    ensures
        r@ == monitor_rule(name@, width, height),
{
    let mut rule = String::new();
    rule.append(name);
    rule.append(",");
    let ghost before = rule@;
    push_decimal(&mut rule, width as u64);
    rule.append("x");
    push_decimal(&mut rule, height as u64);
    rule.append("@60");
    assert(rule@ =~= before + mode_text(width, height));
    assert(before =~= name@ + ","@);
    rule.append(",-9999x0,1");
    rule
}

impl HyprDisplayInner {
    /// The state with the session at another size: the size itself, its desktop
    /// size, and what the graphics channel was told of it.
    pub open spec fn at_size(self, size: (u32, u32)) -> HyprDisplayInner {
        HyprDisplayInner {
            resolution: size,
            width: low_word(size.0),
            height: low_word(size.1),
            graphics: match self.graphics {
                Some(_) => Some(
                    GraphicsChannel {
                        surface_size: Some((low_word(size.0), low_word(size.1))),
                        resize_prepared: Some((low_word(size.0), low_word(size.1))),
                    },
                ),
                None => None,
            },
            ..self
        }
    }

    /// The state once a capture has started.
    pub open spec fn after_capture(
        self,
        info: CaptureInfo,
        presentation: Option<(u32, u32)>,
    ) -> HyprDisplayInner {
        let size = match presentation {
            Some(size) => size,
            None => (info.width, info.height),
        };
        HyprDisplayInner {
            output_name: info.output_name,
            width: low_word(size.0),
            height: low_word(size.1),
            resolution: size,
            ..self
        }
    }

    /// `post` is the state, and `r` the result, of a resize that was `done` or
    /// not.
    pub open spec fn resized(
        self,
        post: HyprDisplayInner,
        size: (u32, u32),
        done: bool,
        r: Option<DesktopSize>,
    ) -> bool {
        if done {
            post == self.at_size(size) && r == Some(desktop_size(size))
        } else {
            post == self && r is None
        }
    }

    /// What a resize decision may call: the headless output only where that is
    /// the target, and the input layout only once the output has its size.
    pub open spec fn may_apply<H, L>(self, d: ResizeDecision, resize: H, refresh: L) -> bool where
        H: FnOnce(String, u32, u32) -> bool,
        L: FnOnce(String, (u32, u32)) -> bool,
     {
        &&& d.target == ResizeTarget::ManagedHeadlessOutput ==> resize.requires(
            (self.output_name, d.width, d.height),
        )
        &&& d.target == ResizeTarget::PhysicalPresentation || resize.ensures(
            (self.output_name, d.width, d.height),
            true,
        ) ==> refresh.requires((self.output_name, (d.width, d.height)))
    }

    /// How a resize decision ends: done where every call that it makes succeeds.
    pub open spec fn applied<H, L>(
        self,
        post: HyprDisplayInner,
        d: ResizeDecision,
        resize: H,
        refresh: L,
        r: Option<DesktopSize>,
    ) -> bool where
        H: FnOnce(String, u32, u32) -> bool,
        L: FnOnce(String, (u32, u32)) -> bool,
     {
        exists|output_ok: bool, layout_ok: bool|
            {
                &&& d.target == ResizeTarget::ManagedHeadlessOutput ==> resize.ensures(
                    (self.output_name, d.width, d.height),
                    output_ok,
                )
                &&& d.target == ResizeTarget::PhysicalPresentation ==> output_ok
                &&& output_ok ==> refresh.ensures(
                    (self.output_name, (d.width, d.height)),
                    layout_ok,
                )
                &&& #[trigger] self.resized(
                    post,
                    (d.width, d.height),
                    both(output_ok, layout_ok),
                    r,
                )
            }
    }

    fn apply_presentation_state_with<L>(&mut self, width: u32, height: u32, refresh_layout: L) -> (r:
        Option<DesktopSize>) where L: FnOnce(String, (u32, u32)) -> bool
        requires
            refresh_layout.requires((old(self).output_name, (width, height))),
        ensures
            exists|ok: bool|
                {
                    &&& refresh_layout.ensures((old(self).output_name, (width, height)), ok)
                    &&& #[trigger] old(self).resized(*final(self), (width, height), ok, r)
                },
    {
        if !refresh_layout(self.output_name.clone(), (width, height)) {
            assert(old(self).resized(*self, (width, height), false, None));
            return None;
        }
        self.resolution = (width, height);
        self.width = to_word(width);
        self.height = to_word(height);
        let desktop_size = DesktopSize { width: self.width, height: self.height };
        if self.graphics.is_some() {
            self.graphics = Some(
                GraphicsChannel {
                    surface_size: Some((self.width, self.height)),
                    resize_prepared: Some((self.width, self.height)),
                },
            );
        }
        assert(old(self).resized(*self, (width, height), true, Some(desktop_size)));
        Some(desktop_size)
    }

    /// Carries out a resize decision: the headless output first, where it is the
    /// target, then the input layout, and only then the state.
    pub fn apply_resize_decision_with<H, L>(
        &mut self,
        decision: ResizeDecision,
        resize_headless: H,
        refresh_layout: L,
    ) -> (r: Option<DesktopSize>) where
        H: FnOnce(String, u32, u32) -> bool,
        L: FnOnce(String, (u32, u32)) -> bool,

        requires
            old(self).may_apply(decision, resize_headless, refresh_layout),
        ensures
            old(self).applied(*final(self), decision, resize_headless, refresh_layout, r),
    {
        let output_ok: bool = match decision.target {
            ResizeTarget::ManagedHeadlessOutput => resize_headless(
                self.output_name.clone(),
                decision.width,
                decision.height,
            ),
            ResizeTarget::PhysicalPresentation => true,
        };
        if !output_ok {
            assert(old(self).resized(
                *self,
                (decision.width, decision.height),
                both(false, false),
                None,
            ));
            return None;
        }
        let r = self.apply_presentation_state_with(
            decision.width,
            decision.height,
            refresh_layout,
        );
        proof {
            let ok = choose|ok: bool|
                {
                    &&& refresh_layout.ensures(
                        (old(self).output_name, (decision.width, decision.height)),
                        ok,
                    )
                    &&& #[trigger] old(self).resized(
                        *self,
                        (decision.width, decision.height),
                        ok,
                        r,
                    )
                };
            assert(old(self).resized(
                *self,
                (decision.width, decision.height),
                both(true, ok),
                r,
            ));
        }
        r
    }
}

/// Whether both hold.
pub open spec fn both(a: bool, b: bool) -> bool {
    a && b
}

/// How a client's first size is answered: with the size that the session has then. A
/// resize that was carried out is kept for the capture to come.
pub open spec fn answers_first_size<H, L>(
    pre: HyprDisplay,
    post: HyprDisplay,
    client_size: DesktopSize,
    source_size: Option<(u32, u32)>,
    resize_headless: H,
    refresh_layout: L,
    r: DesktopSize,
) -> bool where H: FnOnce(String, u32, u32) -> bool, L: FnOnce(String, (u32, u32)) -> bool {
    &&& r == (DesktopSize { width: post.inner.width, height: post.inner.height })
    &&& match pre.decides_initially(client_size, source_size) {
        Some(d) => exists|applied: HyprDisplayInner, made: Option<DesktopSize>|
            {
                &&& #[trigger] pre.inner.applied(applied, d, resize_headless, refresh_layout, made)
                &&& post.inner == (HyprDisplayInner {
                    pending_initial_resize: if made is Some {
                        made
                    } else {
                        applied.pending_initial_resize
                    },
                    ..applied
                })
            },
        None => post == pre,
    }
}

/// How the monitors that a client asks for are answered.
pub open spec fn answers_layout<H, L>(
    pre: HyprDisplay,
    post: HyprDisplay,
    monitors: Seq<MonitorEntry>,
    source_size: Option<(u32, u32)>,
    resize_headless: H,
    refresh_layout: L,
    r: Option<DesktopSize>,
) -> bool where H: FnOnce(String, u32, u32) -> bool, L: FnOnce(String, (u32, u32)) -> bool {
    match pre.decides_for(monitors, source_size) {
        Some(d) => pre.inner.applied(post.inner, d, resize_headless, refresh_layout, r),
        None => post == pre && r is None,
    }
}

impl HyprDisplay {
    /// What a client's first size leads to.
    pub open spec fn decides_initially(
        &self,
        client_size: DesktopSize,
        source: Option<(u32, u32)>,
    ) -> Option<ResizeDecision> {
        initial_decision(
            self.inner.output is Some,
            self.inner.resolution_fixed,
            self.inner.resolution,
            clamped_size((client_size.width as u32, client_size.height as u32)),
            source,
        )
    }

    /// What the monitors that a client asks for lead to.
    pub open spec fn decides_for(
        &self,
        monitors: Seq<MonitorEntry>,
        source: Option<(u32, u32)>,
    ) -> Option<ResizeDecision> {
        layout_decision(
            monitors,
            self.inner.output is Some,
            self.inner.resolution_fixed,
            self.inner.resolution,
            source,
        )
    }

    /// The size that clients are told.
    pub fn size(&self) -> (r: DesktopSize)
        ensures
            r == (DesktopSize { width: self.inner.width, height: self.inner.height }),
    {
        DesktopSize { width: self.inner.width, height: self.inner.height }
    }

    /// Answers a client's first size with the size that the session has from then
    /// on. A resize that was carried out is kept for the capture to come.
    pub fn request_initial_size_with<H, L>(
        &mut self,
        client_size: DesktopSize,
        source_size: Option<(u32, u32)>,
        resize_headless: H,
        refresh_layout: L,
    ) -> (r: DesktopSize) where
        H: FnOnce(String, u32, u32) -> bool,
        L: FnOnce(String, (u32, u32)) -> bool,

        requires
            match old(self).decides_initially(client_size, source_size) {
                Some(d) => old(self).inner.may_apply(d, resize_headless, refresh_layout),
                None => true,
            },
        ensures
            answers_first_size(
                *old(self),
                *final(self),
                client_size,
                source_size,
                resize_headless,
                refresh_layout,
                r,
            ),
    {
        let requested = clamp_to_h264_software_limits(
            client_size.width as u32,
            client_size.height as u32,
        );
        if let Some(decision) = initial_size_resize_decision(
            self.inner.output.is_some(),
            self.inner.resolution_fixed,
            self.inner.resolution,
            requested,
            source_size,
        ) {
            let made = self.inner.apply_resize_decision_with(
                decision,
                resize_headless,
                refresh_layout,
            );
            let ghost applied = self.inner;
            if let Some(size) = made {
                self.inner.pending_initial_resize = Some(size);
            }
            assert(old(self).inner.applied(
                applied,
                decision,
                resize_headless,
                refresh_layout,
                made,
            ));
        }
        self.size()
    }

    /// Answers the monitors that a client asks for. The result is the resize that
    /// clients are to be told of, if one was carried out.
    pub fn request_monitors_with<H, L>(
        &mut self,
        monitors: &[MonitorEntry],
        source_size: Option<(u32, u32)>,
        resize_headless: H,
        refresh_layout: L,
    ) -> (r: Option<DesktopSize>) where
        H: FnOnce(String, u32, u32) -> bool,
        L: FnOnce(String, (u32, u32)) -> bool,

        requires
            match old(self).decides_for(monitors@, source_size) {
                Some(d) => old(self).inner.may_apply(d, resize_headless, refresh_layout),
                None => true,
            },
        ensures
            answers_layout(
                *old(self),
                *final(self),
                monitors@,
                source_size,
                resize_headless,
                refresh_layout,
                r,
            ),
    {
        match monitors_resize_decision(
            monitors,
            self.inner.output.is_some(),
            self.inner.resolution_fixed,
            self.inner.resolution,
            source_size,
        ) {
            Some(decision) => self.inner.apply_resize_decision_with(
                decision,
                resize_headless,
                refresh_layout,
            ),
            None => None,
        }
    }

    /// Answers a monitor layout of the display control channel.
    pub fn request_layout_with<H, L>(
        &mut self,
        layout: &DisplayControlMonitorLayout,
        source_size: Option<(u32, u32)>,
        resize_headless: H,
        refresh_layout: L,
    ) -> (r: Option<DesktopSize>) where
        H: FnOnce(String, u32, u32) -> bool,
        L: FnOnce(String, (u32, u32)) -> bool,

        requires
            match old(self).decides_for(layout_monitors(*layout), source_size) {
                Some(d) => old(self).inner.may_apply(d, resize_headless, refresh_layout),
                None => true,
            },
        ensures
            answers_layout(
                *old(self),
                *final(self),
                layout_monitors(*layout),
                source_size,
                resize_headless,
                refresh_layout,
                r,
            ),
    {
        let monitors = monitors_of(layout);
        self.request_monitors_with(
            monitors.as_slice(),
            source_size,
            resize_headless,
            refresh_layout,
        )
    }

    /// Hands out the resize that the next capture is to start with, once.
    pub fn take_pending_initial_resize(&mut self) -> (r: Option<DesktopSize>)
        ensures
            r == old(self).inner.pending_initial_resize,
            final(self).inner == (HyprDisplayInner {
                pending_initial_resize: None,
                ..old(self).inner
            }),
    {
        let pending = self.inner.pending_initial_resize;
        self.inner.pending_initial_resize = None;
        pending
    }

    /// Takes over what a started capture found: the output's name, and the size
    /// of the presentation, or of the output while no layout is known.
    pub fn capture_started(&mut self, info: CaptureInfo, presentation: Option<(u32, u32)>)
        ensures
            final(self).inner == old(self).inner.after_capture(info, presentation),
    {
        let size: (u32, u32) = match presentation {
            Some(size) => size,
            None => (info.width, info.height),
        };
        self.inner.output_name = info.output_name;
        self.inner.width = to_word(size.0);
        self.inner.height = to_word(size.1);
        self.inner.resolution = size;
    }
}

/// The display that a session starts with on an output.
pub open spec fn is_started(
    display: HyprDisplay,
    config: DisplayConfig,
    info: CaptureInfo,
    size: (u32, u32),
) -> bool {
    display.inner == (HyprDisplayInner {
        width: low_word(size.0),
        height: low_word(size.1),
        resolution: size,
        capture_mode: config.capture_mode,
        output_name: info.output_name,
        graphics: Some(GraphicsChannel { surface_size: None, resize_prepared: None }),
        bitrate: config.bitrate,
        quality: config.quality,
        rate_control: config.rate_control,
        fps: config.fps,
        output: config.output,
        resolution_fixed: config.resolution_fixed,
        pending_initial_resize: None,
    })
}

/// What the start of a display may call once its output is there: the output is
/// asked for its size, and the layout is set up for the size that follows from it.
pub open spec fn may_start_on<I, L>(
    config: DisplayConfig,
    name: String,
    output_info: I,
    initialize_layout: L,
) -> bool where I: FnOnce(String) -> Option<CaptureInfo>, L: FnOnce(String, (u32, u32)) -> bool {
    &&& output_info.requires((name,))
    &&& forall|info: CaptureInfo| #[trigger]
        output_info.ensures((name,), Some(info)) ==> initialize_layout.requires(
            (
                name,
                startup_size(
                    config.output is Some,
                    config.resolution_fixed,
                    clamped_size(config.resolution),
                    (info.width, info.height),
                ),
            ),
        )
}

/// What the start of a display without a physical output may call: a leftover
/// output is only ever brought to the configured size, and an output is created
/// only where none is left over.
pub open spec fn may_start_headless<S, R, C, I, L>(
    config: DisplayConfig,
    list_stale: S,
    reuse: R,
    create: C,
    output_info: I,
    initialize_layout: L,
) -> bool where
    S: FnOnce() -> Vec<String>,
    R: FnOnce(String, String, (u32, u32)) -> ReuseOutcome,
    C: FnOnce((u32, u32)) -> Option<String>,
    I: FnOnce(String) -> Option<CaptureInfo>,
    L: FnOnce(String, (u32, u32)) -> bool,
 {
    let size = clamped_size(config.resolution);
    &&& list_stale.requires(())
    &&& forall|stale: Vec<String>, rule: String|
        list_stale.ensures((), stale) && stale@.len() > 0 && rule@ == monitor_rule(
            stale@[0]@,
            size.0,
            size.1,
        ) ==> #[trigger] reuse.requires((stale@[0], rule, size))
    &&& forall|stale: Vec<String>, rule: String|
        list_stale.ensures((), stale) && stale@.len() > 0 && #[trigger] reuse.ensures(
            (stale@[0], rule, size),
            ReuseOutcome::Ready,
        ) ==> may_start_on(config, stale@[0], output_info, initialize_layout)
    &&& forall|stale: Vec<String>| #[trigger]
        list_stale.ensures((), stale) && stale@.len() == 0 ==> create.requires((size,))
    &&& forall|stale: Vec<String>, name: String| #[trigger]
        list_stale.ensures((), stale) && stale@.len() == 0 && #[trigger] create.ensures(
            (size,),
            Some(name),
        ) ==> may_start_on(config, name, output_info, initialize_layout)
}

/// How the start of a display ends once its output is there.
pub open spec fn started_on<I, L>(
    config: DisplayConfig,
    name: String,
    output_info: I,
    initialize_layout: L,
    r: Result<(HyprDisplay, (u16, u16)), DisplayError>,
) -> bool where I: FnOnce(String) -> Option<CaptureInfo>, L: FnOnce(String, (u32, u32)) -> bool {
    exists|info: Option<CaptureInfo>|
        #[trigger] output_info.ensures((name,), info) && match info {
            None => r == Err::<(HyprDisplay, (u16, u16)), _>(DisplayError::OutputInfo),
            Some(info) => {
                let size = startup_size(
                    config.output is Some,
                    config.resolution_fixed,
                    clamped_size(config.resolution),
                    (info.width, info.height),
                );
                exists|ok: bool|
                    #[trigger] initialize_layout.ensures((name, size), ok) && if ok {
                        r is Ok && is_started(r->Ok_0.0, config, info, size) && r->Ok_0.1 == (
                            low_word(size.0),
                            low_word(size.1),
                        )
                    } else {
                        r == Err::<(HyprDisplay, (u16, u16)), _>(DisplayError::InitializeLayout)
                    }
            },
        }
}

/// How the start of a display without a physical output ends: on the first
/// headless output left over from an earlier session, brought to the configured
/// size, or else on a new one.
pub open spec fn started_headless<S, R, C, I, L>(
    config: DisplayConfig,
    list_stale: S,
    reuse: R,
    create: C,
    output_info: I,
    initialize_layout: L,
    r: Result<(HyprDisplay, (u16, u16)), DisplayError>,
) -> bool where
    S: FnOnce() -> Vec<String>,
    R: FnOnce(String, String, (u32, u32)) -> ReuseOutcome,
    C: FnOnce((u32, u32)) -> Option<String>,
    I: FnOnce(String) -> Option<CaptureInfo>,
    L: FnOnce(String, (u32, u32)) -> bool,
 {
    let size = clamped_size(config.resolution);
    exists|stale: Vec<String>|
        #[trigger] list_stale.ensures((), stale) && if stale@.len() > 0 {
            exists|rule: String, outcome: ReuseOutcome|
                rule@ == monitor_rule(stale@[0]@, size.0, size.1) && #[trigger] reuse.ensures(
                    (stale@[0], rule, size),
                    outcome,
                ) && match outcome {
                    ReuseOutcome::Ready => started_on(
                        config,
                        stale@[0],
                        output_info,
                        initialize_layout,
                        r,
                    ),
                    ReuseOutcome::NotResized => r == Err::<(HyprDisplay, (u16, u16)), _>(
                        DisplayError::ReuseHeadlessOutput,
                    ),
                    ReuseOutcome::NotReady => r == Err::<(HyprDisplay, (u16, u16)), _>(
                        DisplayError::ReusedOutputNotReady,
                    ),
                }
        } else {
            exists|made: Option<String>|
                #[trigger] create.ensures((size,), made) && match made {
                    Some(name) => started_on(config, name, output_info, initialize_layout, r),
                    None => r == Err::<(HyprDisplay, (u16, u16)), _>(
                        DisplayError::CreateHeadlessOutput,
                    ),
                }
        }
}

fn start_on<I, L>(
    config: DisplayConfig,
    configured: (u32, u32),
    name: String,
    output_info: I,
    initialize_layout: L,
) -> (r: Result<(HyprDisplay, (u16, u16)), DisplayError>) where
    I: FnOnce(String) -> Option<CaptureInfo>,
    L: FnOnce(String, (u32, u32)) -> bool,

    requires
        configured == clamped_size(config.resolution),
        may_start_on(config, name, output_info, initialize_layout),
    ensures
        started_on(config, name, output_info, initialize_layout, r),
{
    let info = match output_info(name.clone()) {
        Some(info) => info,
        None => {
            assert(output_info.ensures((name,), None));
            return Err(DisplayError::OutputInfo);
        },
    };
    assert(output_info.ensures((name,), Some(info)));
    let size = startup_presentation_size(
        config.output.is_some(),
        config.resolution_fixed,
        configured,
        (info.width, info.height),
    );
    let ok: bool = initialize_layout(name.clone(), size);
    assert(initialize_layout.ensures((name, size), ok));
    if !ok {
        return Err(DisplayError::InitializeLayout);
    }
    let width: u16 = to_word(size.0);
    let height: u16 = to_word(size.1);
    let inner = HyprDisplayInner {
        width,
        height,
        resolution: size,
        capture_mode: config.capture_mode,
        output_name: info.output_name,
        graphics: Some(GraphicsChannel { surface_size: None, resize_prepared: None }),
        bitrate: config.bitrate,
        quality: config.quality,
        rate_control: config.rate_control,
        fps: config.fps,
        output: config.output,
        resolution_fixed: config.resolution_fixed,
        pending_initial_resize: None,
    };
    Ok((HyprDisplay { inner }, (width, height)))
}

impl HyprDisplay {
    /// Tells the graphics channel, where there is one, the size of its surface.
    pub fn set_surface_size(&mut self, width: u16, height: u16)
        ensures
            final(self).inner == (HyprDisplayInner {
                graphics: match old(self).inner.graphics {
                    Some(channel) => Some(
                        GraphicsChannel { surface_size: Some((width, height)), ..channel },
                    ),
                    None => None,
                },
                ..old(self).inner
            }),
    {
        if let Some(channel) = self.inner.graphics {
            self.inner.graphics = Some(
                GraphicsChannel { surface_size: Some((width, height)), ..channel },
            );
        }
    }

    /// Starts a display: on the physical output that is asked for, else on a
    /// headless output of the configured size, reused or created. Capture is left
    /// for the first client, and the graphics channel is not told anything yet.
    pub fn new<S, R, C, I, L>(
        config: DisplayConfig,
        list_stale: S,
        reuse: R,
        create: C,
        output_info: I,
        initialize_layout: L,
    ) -> (r: Result<(HyprDisplay, (u16, u16)), DisplayError>) where
        S: FnOnce() -> Vec<String>,
        R: FnOnce(String, String, (u32, u32)) -> ReuseOutcome,
        C: FnOnce((u32, u32)) -> Option<String>,
        I: FnOnce(String) -> Option<CaptureInfo>,
        L: FnOnce(String, (u32, u32)) -> bool,

        requires
            match config.output {
                Some(name) => may_start_on(config, name, output_info, initialize_layout),
                None => may_start_headless(
                    config,
                    list_stale,
                    reuse,
                    create,
                    output_info,
                    initialize_layout,
                ),
            },
        ensures
            match config.output {
                Some(name) => started_on(config, name, output_info, initialize_layout, r),
                None => started_headless(
                    config,
                    list_stale,
                    reuse,
                    create,
                    output_info,
                    initialize_layout,
                    r,
                ),
            },
    {
        let configured = clamp_to_h264_software_limits(config.resolution.0, config.resolution.1);
        assert(configured == clamped_size(config.resolution));
        let name = match &config.output {
            Some(name) => name.clone(),
            None => {
                let stale = list_stale();
                assert(list_stale.ensures((), stale));
                if stale.len() > 0 {
                    let existing = stale[0].clone();
                    let rule = headless_monitor_rule(
                        existing.as_str(),
                        configured.0,
                        configured.1,
                    );
                    let ghost rule_given = rule;
                    let outcome = reuse(existing.clone(), rule, configured);
                    assert(reuse.ensures((stale@[0], rule_given, configured), outcome));
                    match outcome {
                        ReuseOutcome::Ready => {},
                        ReuseOutcome::NotResized => {
                            return Err(DisplayError::ReuseHeadlessOutput);
                        },
                        ReuseOutcome::NotReady => {
                            return Err(DisplayError::ReusedOutputNotReady);
                        },
                    }
                    existing
                } else {
                    match create(configured) {
                        Some(name) => {
                            assert(create.ensures((configured,), Some(name)));
                            name
                        },
                        None => {
                            assert(create.ensures((configured,), None));
                            return Err(DisplayError::CreateHeadlessOutput);
                        },
                    }
                }
            },
        };
        start_on(config, configured, name, output_info, initialize_layout)
    }
}

impl HyprDisplayInner {
    /// The desktop size is that of the resolution, and the graphics channel was
    /// told no other, if it was told any.
    pub open spec fn in_step(&self) -> bool {
        &&& self.width == low_word(self.resolution.0)
        &&& self.height == low_word(self.resolution.1)
        &&& self.graphics is Some && self.graphics->0.surface_size is Some
            ==> self.graphics->0.surface_size == Some((self.width, self.height))
    }
}

/// A display starts with everything in step, and on the size that is reported.
pub proof fn a_display_starts_in_step(
    display: HyprDisplay,
    config: DisplayConfig,
    info: CaptureInfo,
    size: (u32, u32),
)
    requires
        is_started(display, config, info, size),
    ensures
        display.inner.in_step(),
        display.inner.resolution == size,
{
}

/// A resize keeps everything in step. One that is not carried out changes nothing;
/// one that is carried out reports the size that the display then has.
pub proof fn resizes_keep_the_display_in_step<H, L>(
    pre: HyprDisplayInner,
    post: HyprDisplayInner,
    d: ResizeDecision,
    resize: H,
    refresh: L,
    r: Option<DesktopSize>,
) where H: FnOnce(String, u32, u32) -> bool, L: FnOnce(String, (u32, u32)) -> bool
    requires
        pre.in_step(),
        pre.applied(post, d, resize, refresh, r),
    ensures
        post.in_step(),
        r is None ==> post == pre,
        r is Some ==> post.resolution == (d.width, d.height) && r == Some(
            DesktopSize { width: post.width, height: post.height },
        ),
{
}

/// A size that the encoder accepts is told to clients as it is.
pub proof fn accepted_sizes_reach_clients_unchanged(size: (u32, u32))
    requires
        within_limits(size.0 as int, size.1 as int),
    ensures
        desktop_size(size).width == size.0,
        desktop_size(size).height == size.1,
{
}

} // verus!
