//! One session at a time: what becomes of connections, and what a session's
//! start and end are reported to.
use vstd::prelude::*;

use super::session_hooks::{HookJob, SessionEvent, SessionHooks};
use crate::audio::AudioMode;

verus! {

/// The user name and password that the configuration holds.
#[derive(Debug, PartialEq, Eq)]
pub struct ConfigCredentials {
    pub username: String,
    pub password: String,
}

/// The credentials that clients are asked for.
#[derive(Debug, PartialEq, Eq)]
pub struct Credentials {
    pub username: String,
    pub password: String,
    pub domain: Option<String>,
}

/// The configured credentials as they are, without a domain.
pub fn ironrdp_credentials(credentials: Option<ConfigCredentials>) -> (r: Option<Credentials>)
    ensures
        r == match credentials {
            Some(c) => Some(
                Credentials { username: c.username, password: c.password, domain: None },
            ),
            None => None,
        },
{
    match credentials {
        Some(c) => Some(
            Credentials { username: c.username, password: c.password, domain: None },
        ),
        None => None,
    }
}

/// How a connection is secured.
#[derive(Clone, Copy, Debug, PartialEq, Eq, Structural)]
pub enum ServerSecurityMode {
    Tls,
    Hybrid,
}

/// Clients authenticate before the session wherever credentials are set.
pub fn security_mode_for_credentials(credentials: &Option<Credentials>) -> (r: ServerSecurityMode)
    ensures
        r == if credentials is Some {
            ServerSecurityMode::Hybrid
        } else {
            ServerSecurityMode::Tls
        },
{
    if credentials.is_some() {
        ServerSecurityMode::Hybrid
    } else {
        ServerSecurityMode::Tls
    }
}

/// The mode of the sound channel; there is none where sound is off.
pub fn sound_factory_for_audio_mode(audio_mode: AudioMode) -> (r: Option<AudioMode>)
    ensures
        r == if audio_mode == AudioMode::Off {
            None
        } else {
            Some(audio_mode)
        },
{
    match audio_mode {
        AudioMode::Mirror | AudioMode::Redirect => Some(audio_mode),
        AudioMode::Off => None,
    }
}

/// Pause after a failed accept, in milliseconds. A resource limit leaves the
/// listener readable, so retrying at once would spin.
pub const ACCEPT_RETRY_DELAY_MS: u64 = 50;

/// What the accept loop waits for.
#[derive(Clone, Copy, Debug, PartialEq, Eq, Structural)]
pub enum AcceptState {
    Idle,
    Serving,
}

/// What happens to the accept loop.
#[derive(Clone, Copy, Debug, PartialEq, Eq, Structural)]
pub enum AcceptEvent {
    Accepted,
    AcceptFailed,
    SessionEnded,
}

/// What the accept loop does about it.
#[derive(Clone, Copy, Debug, PartialEq, Eq, Structural)]
pub enum AcceptAction {
    /// Run a session on the accepted connection.
    RunSession,
    /// Close the accepted connection at once.
    Reject,
    /// Wait this many milliseconds before the next accept.
    PauseMs(u64),
    /// Report the end of the session.
    ReportEnd,
    Nothing,
}

/// A free loop serves the connection that it accepts; a busy one closes every
/// further connection instead of leaving it to hang.
pub open spec fn accept_step(state: AcceptState, event: AcceptEvent) -> (
    AcceptState,
    AcceptAction,
) {
    match event {
        AcceptEvent::Accepted => if state == AcceptState::Idle {
            (AcceptState::Serving, AcceptAction::RunSession)
        } else {
            (AcceptState::Serving, AcceptAction::Reject)
        },
        AcceptEvent::AcceptFailed => (state, AcceptAction::PauseMs(ACCEPT_RETRY_DELAY_MS)),
        AcceptEvent::SessionEnded => (
            AcceptState::Idle,
            if state == AcceptState::Serving {
                AcceptAction::ReportEnd
            } else {
                AcceptAction::Nothing
            },
        ),
    }
}

/// The next step of the accept loop.
pub fn next_accept_step(state: AcceptState, event: AcceptEvent) -> (r: (AcceptState, AcceptAction))
    ensures
        r == accept_step(state, event),
{
    match (state, event) {
        (AcceptState::Idle, AcceptEvent::Accepted) => (
            AcceptState::Serving,
            AcceptAction::RunSession,
        ),
        (AcceptState::Serving, AcceptEvent::Accepted) => (
            AcceptState::Serving,
            AcceptAction::Reject,
        ),
        (_, AcceptEvent::AcceptFailed) => (state, AcceptAction::PauseMs(ACCEPT_RETRY_DELAY_MS)),
        (AcceptState::Idle, AcceptEvent::SessionEnded) => (
            AcceptState::Idle,
            AcceptAction::Nothing,
        ),
        (AcceptState::Serving, AcceptEvent::SessionEnded) => (
            AcceptState::Idle,
            AcceptAction::ReportEnd,
        ),
    }
}

/// The loop's state after a history of events.
pub open spec fn accept_state(events: Seq<AcceptEvent>) -> AcceptState
    decreases events.len(),
{
    if events.len() == 0 {
        AcceptState::Idle
    } else {
        accept_step(accept_state(events.drop_last()), events.last()).0
    }
}

/// How often a history of events leads to `action`.
pub open spec fn times(events: Seq<AcceptEvent>, action: AcceptAction) -> nat
    decreases events.len(),
{
    if events.len() == 0 {
        0
    } else {
        times(events.drop_last(), action) + if accept_step(
            accept_state(events.drop_last()),
            events.last(),
        ).1 == action {
            1nat
        } else {
            0
        }
    }
}

/// Every session that was run has its end reported once, and at most one session
/// runs at any time.
pub proof fn every_session_end_is_reported_once(events: Seq<AcceptEvent>)
    ensures
        times(events, AcceptAction::RunSession) == times(events, AcceptAction::ReportEnd) + if accept_state(
            events,
        ) == AcceptState::Serving {
            1nat
        } else {
            0
        },
    decreases events.len(),
{
    if events.len() > 0 {
        every_session_end_is_reported_once(events.drop_last());
    }
}

/// While a session runs every further connection is closed, and the next one
/// after the session is served.
pub proof fn a_busy_loop_rejects_and_serves_again(events: Seq<AcceptEvent>)
    requires
        accept_state(events) == AcceptState::Serving,
    ensures
        accept_step(accept_state(events), AcceptEvent::Accepted) == (
            AcceptState::Serving,
            AcceptAction::Reject,
        ),
        accept_step(
            accept_state(events.push(AcceptEvent::SessionEnded)),
            AcceptEvent::Accepted,
        ).1 == AcceptAction::RunSession,
{
    assert(events.push(AcceptEvent::SessionEnded).drop_last() =~= events);
}

/// What a session boundary is passed on as: to the input side the client's
/// keyboard layout or the release of held keys, and to the hook queue a job.
#[derive(Clone, Copy, Debug, PartialEq, Eq, Structural)]
pub struct BoundaryAction {
    pub keyboard_layout: Option<u32>,
    pub release_keys: bool,
    pub job: Option<HookJob>,
}

/// The receiver of session boundaries, with the hooks where there are any.
#[derive(Clone, Copy, Debug, PartialEq, Eq, Structural)]
pub struct ClientConnectionHandler {
    pub session_hooks: Option<SessionHooks>,
}

impl ClientConnectionHandler {
    /// A handler with the hooks that it is to drive.
    pub fn new(session_hooks: Option<SessionHooks>) -> (r: Self)
        ensures
            r == (ClientConnectionHandler { session_hooks }),
    {
        ClientConnectionHandler { session_hooks }
    }

    /// The handler after `event`.
    pub open spec fn after(self, event: SessionEvent) -> ClientConnectionHandler {
        ClientConnectionHandler {
            session_hooks: match self.session_hooks {
                Some(hooks) => Some(hooks.after(event)),
                None => None,
            },
        }
    }

    /// The job that `event` leads to.
    pub open spec fn job_for(self, event: SessionEvent) -> Option<HookJob> {
        match self.session_hooks {
            Some(hooks) => hooks.job_for(event),
            None => None,
        }
    }

    /// What the start of a session is passed on as.
    pub open spec fn on_start(self, keyboard_layout: u32) -> BoundaryAction {
        BoundaryAction {
            keyboard_layout: Some(keyboard_layout),
            release_keys: false,
            job: self.job_for(SessionEvent::Started),
        }
    }

    /// What the end of a session is passed on as.
    pub open spec fn on_end(self) -> BoundaryAction {
        BoundaryAction {
            keyboard_layout: None,
            release_keys: true,
            job: self.job_for(SessionEvent::Ended),
        }
    }

    /// A client is connected: its keyboard layout is passed on, and the session
    /// starts.
    pub fn on_connection_info(&mut self, keyboard_layout: u32) -> (r: BoundaryAction)
        ensures
            *final(self) == old(self).after(SessionEvent::Started),
            r == old(self).on_start(keyboard_layout),
    {
        let mut job: Option<HookJob> = None;
        if let Some(hooks) = self.session_hooks {
            let mut hooks = hooks;
            job = hooks.session_started();
            self.session_hooks = Some(hooks);
        }
        BoundaryAction { keyboard_layout: Some(keyboard_layout), release_keys: false, job }
    }

    /// A session is over: held keys are released, and the session ends. Both are
    /// without effect for a connection that never became a session.
    pub fn on_disconnected(&mut self) -> (r: BoundaryAction)
        ensures
            *final(self) == old(self).after(SessionEvent::Ended),
            r == old(self).on_end(),
    {
        let mut job: Option<HookJob> = None;
        if let Some(hooks) = self.session_hooks {
            let mut hooks = hooks;
            job = hooks.session_ended();
            self.session_hooks = Some(hooks);
        }
        BoundaryAction { keyboard_layout: None, release_keys: true, job }
    }
}

/// A session end that is reported twice, by the accept loop and by the server,
/// queues one end job.
pub proof fn reporting_an_end_twice_queues_one_job(handler: ClientConnectionHandler)
    ensures
        handler.after(SessionEvent::Ended).job_for(SessionEvent::Ended) is None,
        handler.after(SessionEvent::Ended).after(SessionEvent::Ended) == handler.after(
            SessionEvent::Ended,
        ),
{
}

/// What the accept loop does, whatever happened before: a free loop serves, a busy one
/// refuses and goes on serving, a failed accept is retried after 50 ms and changes
/// nothing else, and the end of a session is reported and frees the loop.
pub proof fn what_the_accept_loop_does(state: AcceptState)
    ensures
        accept_step(AcceptState::Idle, AcceptEvent::Accepted) == (
            AcceptState::Serving,
            AcceptAction::RunSession,
        ),
        accept_step(AcceptState::Serving, AcceptEvent::Accepted) == (
            AcceptState::Serving,
            AcceptAction::Reject,
        ),
        accept_step(state, AcceptEvent::AcceptFailed) == (state, AcceptAction::PauseMs(50)),
        accept_step(AcceptState::Serving, AcceptEvent::SessionEnded) == (
            AcceptState::Idle,
            AcceptAction::ReportEnd,
        ),
        accept_step(AcceptState::Idle, AcceptEvent::SessionEnded) == (
            AcceptState::Idle,
            AcceptAction::Nothing,
        ),
{
}

/// The jobs of a session reach the queue that the handler has, and only where it has
/// one: a start where none was active, and an end where one was.
pub proof fn boundaries_lead_to_jobs(handler: ClientConnectionHandler)
    ensures
        handler.session_hooks is None ==> {
            &&& handler.job_for(SessionEvent::Started) is None
            &&& handler.job_for(SessionEvent::Ended) is None
            &&& handler.after(SessionEvent::Started) == handler
            &&& handler.after(SessionEvent::Ended) == handler
        },
        handler.session_hooks is Some ==> {
            let active = handler.session_hooks->0.session_active;
            let queue = handler.session_hooks->0.has_queue;
            let started = handler.after(SessionEvent::Started).session_hooks;
            let ended = handler.after(SessionEvent::Ended).session_hooks;
            &&& handler.job_for(SessionEvent::Started) == if queue && !active {
                Some(HookJob::SessionStart)
            } else {
                None
            }
            &&& handler.job_for(SessionEvent::Ended) == if queue && active {
                Some(HookJob::SessionEnd)
            } else {
                None
            }
            &&& started is Some && started->0.session_active && started->0.has_queue == queue
            &&& ended is Some && !ended->0.session_active && ended->0.has_queue == queue
        },
{
}

/// The start of a session passes on the client's layout and releases nothing; the end
/// releases held keys and leaves the layout alone. Each passes on its own job.
pub proof fn what_boundaries_are_passed_on_as(handler: ClientConnectionHandler, layout: u32)
    ensures
        handler.on_start(layout).keyboard_layout == Some(layout),
        !handler.on_start(layout).release_keys,
        handler.on_start(layout).job == handler.job_for(SessionEvent::Started),
        handler.on_end().keyboard_layout is None,
        handler.on_end().release_keys,
        handler.on_end().job == handler.job_for(SessionEvent::Ended),
{
}

} // verus!
